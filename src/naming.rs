//! File names for saved tracks: the display name with the format's extension, and a number in
//! parentheses when that name is already taken, so that no two tracks share a file.
use vstd::prelude::*;
use vstd::seq_lib::seq_to_set_is_finite;
use vstd::set_lib::lemma_len_subset;
use crate::text::{decimal, decimal_string, lemma_decimal_injective, lemma_decimal_nonempty};

verus! {

/// The `j`-th choice of file name for a track named `name`: `name.ext`, then `name (j).ext`.
pub open spec fn name_choice(name: Seq<char>, ext: Seq<char>, j: nat) -> Seq<char> {
    if j == 0 {
        name + "."@ + ext
    } else {
        name + " ("@ + decimal(j) + ")."@ + ext
    }
}

/// `r` is the first choice of name that is not among `used`.
pub open spec fn is_first_free(
    r: Seq<char>,
    name: Seq<char>,
    ext: Seq<char>,
    used: Seq<Seq<char>>,
) -> bool {
    exists|j: nat|
        #![trigger name_choice(name, ext, j)]
        {
            &&& r == name_choice(name, ext, j)
            &&& !used.contains(r)
            &&& forall|i: nat| i < j ==> used.contains(#[trigger] name_choice(name, ext, i))
        }
}

/// The first choice of name for `name` that is not among `used`.
pub open spec fn first_free_name(name: Seq<char>, ext: Seq<char>, used: Seq<Seq<char>>) -> Seq<
    char,
> {
    choose|r: Seq<char>| is_first_free(r, name, ext, used)
}

/// There is one first free choice.
pub proof fn lemma_first_free_unique(
    r: Seq<char>,
    s: Seq<char>,
    name: Seq<char>,
    ext: Seq<char>,
    used: Seq<Seq<char>>,
)
    requires
        is_first_free(r, name, ext, used),
        is_first_free(s, name, ext, used),
    ensures
        r == s,
{
    let i = choose|i: nat|
        #![trigger name_choice(name, ext, i)]
        {
            &&& r == name_choice(name, ext, i)
            &&& !used.contains(r)
            &&& forall|k: nat| k < i ==> used.contains(#[trigger] name_choice(name, ext, k))
        };
    let j = choose|j: nat|
        #![trigger name_choice(name, ext, j)]
        {
            &&& s == name_choice(name, ext, j)
            &&& !used.contains(s)
            &&& forall|k: nat| k < j ==> used.contains(#[trigger] name_choice(name, ext, k))
        };
    if i < j {
        assert(used.contains(name_choice(name, ext, i)));
    } else if j < i {
        assert(used.contains(name_choice(name, ext, j)));
    }
}

/// Two different choices give two different names.
pub proof fn lemma_choices_differ(name: Seq<char>, ext: Seq<char>, i: nat, j: nat)
    requires
        i != j,
    ensures
        name_choice(name, ext, i) != name_choice(name, ext, j),
{
    reveal_strlit(".");
    reveal_strlit(" (");
    reveal_strlit(").");
    if i == 0 || j == 0 {
        lemma_decimal_nonempty(if i == 0 { j } else { i });
        assert(name_choice(name, ext, i).len() != name_choice(name, ext, j).len());
    } else if name_choice(name, ext, i) == name_choice(name, ext, j) {
        let a = name_choice(name, ext, i);
        let start: int = name.len() + 2int;
        assert(" ("@.len() == 2 && ")."@.len() == 2);
        assert(a.len() == name.len() + 4 + decimal(i).len() + ext.len());
        assert(a.len() == name.len() + 4 + decimal(j).len() + ext.len());
        assert(a.subrange(start, start + decimal(i).len() as int) =~= decimal(i));
        assert(name_choice(name, ext, j).subrange(
            start,
            start + decimal(j).len() as int,
        ) =~= decimal(j));
        lemma_decimal_injective(i, j);
    }
}

/// Among the first `used.len() + 1` choices, one is not among `used`.
pub proof fn lemma_some_choice_free(name: Seq<char>, ext: Seq<char>, used: Seq<Seq<char>>)
    ensures
        exists|j: nat| j <= used.len() && !used.contains(#[trigger] name_choice(name, ext, j)),
{
    if forall|j: nat| j <= used.len() ==> used.contains(#[trigger] name_choice(name, ext, j)) {
        let choices = Seq::new((used.len() + 1) as nat, |j: int| name_choice(name, ext, j as nat));
        assert forall|a: int, b: int|
            0 <= a < choices.len() && 0 <= b < choices.len() && a != b implies choices[a]
            != choices[b] by {
            lemma_choices_differ(name, ext, a as nat, b as nat);
        }
        assert(choices.no_duplicates());
        choices.unique_seq_to_set();
        used.lemma_cardinality_of_set();
        seq_to_set_is_finite(used);
        assert forall|x: Seq<char>| choices.to_set().contains(x) implies used.to_set().contains(
            x,
        ) by {
            let k = choose|k: int| 0 <= k < choices.len() && choices[k] == x;
            assert(used.contains(name_choice(name, ext, k as nat)));
        }
        lemma_len_subset(choices.to_set(), used.to_set());
    }
}

/// Records `name` as taken.
pub fn take_name(used: &mut Vec<String>, name: String)
    ensures
        final(used).deep_view() == old(used).deep_view().push(name@),
{
    used.push(name);
    assert(used.deep_view() =~= old(used).deep_view().push(name@)) by {
        assert forall|i: int| 0 <= i < old(used)@.len() implies used@[i] == old(used)@[i] by {}
    }
}

/// Whether `used` holds `name`.
fn is_used(used: &Vec<String>, name: &String) -> (r: bool)
    ensures
        r == used.deep_view().contains(name@),
{
    let mut k: usize = 0;
    while k < used.len()
        invariant
            k <= used@.len(),
            forall|i: int| 0 <= i < k ==> used@[i]@ != name@,
        decreases used@.len() - k,
    {
        if used[k] == *name {
            assert(used.deep_view()[k as int] == name@);
            return true;
        }
        k = k + 1;
    }
    assert forall|i: int| 0 <= i < used.deep_view().len() implies used.deep_view()[i] != name@ by {
        assert(used@[i]@ != name@);
    }
    false
}

/// The `j`-th choice of file name.
fn choice(name: &String, ext: &String, j: usize) -> (r: String)
    ensures
        r@ == name_choice(name@, ext@, j as nat),
{
    let mut r = name.clone();
    if j == 0 {
        r.append(".");
    } else {
        r.append(" (");
        r.append(decimal_string(j as u64).as_str());
        r.append(").");
    }
    r.append(ext.as_str());
    r
}

/// The file name for a track named `name`: the first choice that is not among `used`.
pub fn free_name(name: &String, ext: &String, used: &Vec<String>) -> (r: String)
    ensures
        is_first_free(r@, name@, ext@, used.deep_view()),
        r@ == first_free_name(name@, ext@, used.deep_view()),
{
    let ghost taken = used.deep_view();
    proof {
        lemma_some_choice_free(name@, ext@, taken);
    }
    let count = used.len();
    let mut j: usize = 0;
    loop
        invariant
            taken == used.deep_view(),
            count == taken.len(),
            j <= taken.len(),
            exists|k: nat| j <= k <= taken.len() && !taken.contains(#[trigger] name_choice(name@, ext@, k)),
            forall|i: nat| i < j ==> taken.contains(#[trigger] name_choice(name@, ext@, i)),
        decreases taken.len() - j,
    {
        let candidate = choice(name, ext, j);
        if !is_used(used, &candidate) {
            assert(is_first_free(candidate@, name@, ext@, taken)) by {
                assert(candidate@ == name_choice(name@, ext@, j as nat));
            }
            proof {
                lemma_first_free_unique(
                    candidate@,
                    first_free_name(name@, ext@, taken),
                    name@,
                    ext@,
                    taken,
                );
            }
            return candidate;
        }
        assert(j < taken.len()) by {
            let k = choose|k: nat| j <= k <= taken.len() && !taken.contains(#[trigger] name_choice(name@, ext@, k));
            assert(k != j);
        }
        j = j + 1;
    }
}

} // verus!
