//! Names for backing up an existing output file: `#<name>.<n>#`, with the
//! smallest `n` from 1 whose name is not taken yet.
use vstd::prelude::*;

verus! {

/// The decimal digit for `d` (below ten).
pub open spec fn digit(d: nat) -> char {
    if d == 0 { '0' }
    else if d == 1 { '1' }
    else if d == 2 { '2' }
    else if d == 3 { '3' }
    else if d == 4 { '4' }
    else if d == 5 { '5' }
    else if d == 6 { '6' }
    else if d == 7 { '7' }
    else if d == 8 { '8' }
    else { '9' }
}

/// `n` written in decimal, without leading zeros.
pub open spec fn decimal(n: nat) -> Seq<char>
    decreases n,
{
    if n < 10 {
        seq![digit(n)]
    } else {
        decimal(n / 10).push(digit(n % 10))
    }
}

/// The backup name with number `n` for a file named `file_name`.
pub open spec fn backup_name(file_name: Seq<char>, n: nat) -> Seq<char> {
    seq!['#'] + file_name + seq!['.'] + decimal(n) + seq!['#']
}

/// `n` is the smallest number from 1 whose backup name is not in `taken`.
pub open spec fn is_first_free(file_name: Seq<char>, taken: Seq<Seq<char>>, n: nat) -> bool {
    &&& n >= 1
    &&& !taken.contains(backup_name(file_name, n))
    &&& forall|m: nat| 1 <= m < n ==> taken.contains(#[trigger] backup_name(file_name, m))
}

pub open spec fn names_of(names: Seq<String>) -> Seq<Seq<char>> {
    names.map_values(|s: String| s@)
}

proof fn lemma_decimal_nonempty(n: nat)
    ensures
        decimal(n).len() >= 1,
    decreases n,
{
    if n >= 10 {
        lemma_decimal_nonempty(n / 10);
    }
}

proof fn lemma_decimal_injective(a: nat, b: nat)
    requires
        decimal(a) == decimal(b),
    ensures
        a == b,
    decreases a,
{
    if a < 10 && b < 10 {
        assert(decimal(a)[0] == digit(a));
        assert(decimal(b)[0] == digit(b));
    } else if a < 10 {
        lemma_decimal_nonempty(b / 10);
        assert(decimal(b).len() >= 2);
    } else if b < 10 {
        lemma_decimal_nonempty(a / 10);
        assert(decimal(a).len() >= 2);
    } else {
        assert(decimal(a).drop_last() =~= decimal(a / 10));
        assert(decimal(b).drop_last() =~= decimal(b / 10));
        assert(decimal(a).last() == digit(a % 10));
        assert(decimal(b).last() == digit(b % 10));
        assert(digit(a % 10) == digit(b % 10));
        assert(a % 10 == b % 10);
        lemma_decimal_injective(a / 10, b / 10);
    }
}

proof fn lemma_backup_name_injective(f: Seq<char>, a: nat, b: nat)
    requires
        backup_name(f, a) == backup_name(f, b),
    ensures
        a == b,
{
    let na = backup_name(f, a);
    let nb = backup_name(f, b);
    let lo = f.len() + 2int;
    assert(na.len() == lo + decimal(a).len() + 1);
    assert(nb.len() == lo + decimal(b).len() + 1);
    assert(na.subrange(lo, na.len() - 1) =~= decimal(a));
    assert(nb.subrange(lo, nb.len() - 1) =~= decimal(b));
    lemma_decimal_injective(a, b);
}

fn digit_str(d: usize) -> (r: &'static str)
    requires
        d < 10,
    ensures
        r@ == seq![digit(d as nat)],
{
    proof {
        reveal_strlit("0");
        reveal_strlit("1");
        reveal_strlit("2");
        reveal_strlit("3");
        reveal_strlit("4");
        reveal_strlit("5");
        reveal_strlit("6");
        reveal_strlit("7");
        reveal_strlit("8");
        reveal_strlit("9");
    }
    let r = if d == 0 { "0" }
    else if d == 1 { "1" }
    else if d == 2 { "2" }
    else if d == 3 { "3" }
    else if d == 4 { "4" }
    else if d == 5 { "5" }
    else if d == 6 { "6" }
    else if d == 7 { "7" }
    else if d == 8 { "8" }
    else { "9" };
    assert(r@ =~= seq![digit(d as nat)]);
    r
}

/// Appends `n` in decimal to `s`.
fn push_decimal(s: &mut String, n: usize)
    ensures
        final(s)@ == old(s)@ + decimal(n as nat),
    decreases n,
{
    if n >= 10 {
        push_decimal(s, n / 10);
    }
    s.append(digit_str(n % 10));
    proof {
        if n >= 10 {
            assert(decimal(n as nat) == decimal((n / 10) as nat).push(digit((n % 10) as nat)));
        }
    }
    assert(final(s)@ =~= old(s)@ + decimal(n as nat));
}

/// The backup name with number `number` for a file named `file_name`.
pub fn backup_file_name(file_name: &str, number: usize) -> (r: String)
    ensures
        r@ == backup_name(file_name@, number as nat),
{
    proof {
        reveal_strlit("#");
        reveal_strlit(".");
    }
    let mut r = String::new();
    r.append("#");
    r.append(file_name);
    r.append(".");
    push_decimal(&mut r, number);
    r.append("#");
    assert(r@ =~= backup_name(file_name@, number as nat));
    r
}

fn is_taken(existing: &Vec<String>, candidate: &String) -> (r: bool)
    ensures
        r == names_of(existing@).contains(candidate@),
{
    let mut j: usize = 0;
    while j < existing.len()
        invariant
            j <= existing@.len(),
            forall|k: int| 0 <= k < j ==> existing@[k]@ != candidate@,
        decreases existing@.len() - j,
    {
        if existing[j] == *candidate {
            assert(names_of(existing@)[j as int] == candidate@);
            return true;
        }
        j = j + 1;
    }
    proof {
        if names_of(existing@).contains(candidate@) {
            let k = names_of(existing@).index_of(candidate@);
            assert(existing@[k]@ == candidate@);
        }
    }
    false
}

/// A name for backing up the file `file_name`: `#<file_name>.<n>#`, with the
/// smallest `n` from 1 whose name is not among `existing`, the names already
/// present beside it.
pub fn name_for_backup(file_name: &str, existing: &Vec<String>) -> (r: String)
    requires
        existing@.len() < usize::MAX,
    ensures
        exists|n: nat| is_first_free(file_name@, names_of(existing@), n) && r@ == backup_name(
            file_name@,
            n,
        ),
{
    let ghost f = file_name@;
    let ghost names = names_of(existing@);
    let ghost mut seen: Set<Seq<char>> = Set::empty();
    proof {
        names.lemma_cardinality_of_set();
    }
    let mut number: usize = 1;
    let mut candidate = backup_file_name(file_name, number);
    let mut taken = is_taken(existing, &candidate);
    while taken
        invariant
            taken == names.contains(candidate@),
            f == file_name@,
            1 <= number <= existing@.len() + 1,
            existing@.len() < usize::MAX,
            candidate@ == backup_name(f, number as nat),
            names == names_of(existing@),
            names.to_set().len() <= names.len(),
            seen.finite(),
            seen.len() == number - 1,
            seen.subset_of(names.to_set()),
            forall|x: Seq<char>| #[trigger] seen.contains(x) ==> exists|m: nat|
                1 <= m < number && x == backup_name(f, m),
            forall|m: nat| 1 <= m < number ==> names.contains(#[trigger] backup_name(f, m)),
        decreases existing@.len() + 1 - number,
    {
        proof {
            if seen.contains(candidate@) {
                let m = choose|m: nat| 1 <= m < number && candidate@ == backup_name(f, m);
                lemma_backup_name_injective(f, m, number as nat);
            }
            assert(names.to_set().contains(candidate@));
            assert(names.len() == existing@.len());
            seen = seen.insert(candidate@);
            vstd::seq_lib::seq_to_set_is_finite(names);
            vstd::set_lib::lemma_len_subset(seen, names.to_set());
            assert forall|x: Seq<char>| #[trigger] seen.contains(x) implies exists|m: nat|
                1 <= m < number + 1 && x == backup_name(f, m) by {
                if x != candidate@ {
                    let m = choose|m: nat| 1 <= m < number && x == backup_name(f, m);
                    assert(1 <= m < number + 1 && x == backup_name(f, m));
                } else {
                    assert(x == backup_name(f, number as nat));
                }
            }
        }
        number = number + 1;
        candidate = backup_file_name(file_name, number);
        taken = is_taken(existing, &candidate);
    }
    assert(is_first_free(f, names, number as nat));
    candidate
}

} // verus!
