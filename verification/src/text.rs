//! Small verified text utilities shared by the rest of the library:
//! string equality, a lexicographic order used to state sortedness of
//! module-id listings, and decimal conversion for numeric config fields.

use vstd::prelude::*;

verus! {

/// Lexicographic "less than or equal" on character sequences.
pub open spec fn lex_le(a: Seq<char>, b: Seq<char>) -> bool
    decreases a.len(),
{
    if a.len() == 0 {
        true
    } else if b.len() == 0 {
        false
    } else if a[0] != b[0] {
        a[0] < b[0]
    } else {
        lex_le(a.skip(1), b.skip(1))
    }
}

/// Strict lexicographic order.
pub open spec fn lex_lt(a: Seq<char>, b: Seq<char>) -> bool {
    lex_le(a, b) && a != b
}

/// Character-by-character equality of two string slices.
pub fn str_eq(a: &str, b: &str) -> (r: bool)
    ensures
        r == (a@ == b@),
{
    let a_len = a.unicode_len();
    let b_len = b.unicode_len();
    if a_len != b_len {
        return false;
    }
    let mut i: usize = 0;
    while i < a_len
        invariant
            i <= a_len,
            a_len == a@.len(),
            b_len == b@.len(),
            a_len == b_len,
            forall|j: int| 0 <= j < i ==> a@[j] == b@[j],
        decreases a_len - i,
    {
        if a.get_char(i) != b.get_char(i) {
            return false;
        }
        i += 1;
    }
    assert(a@ =~= b@);
    true
}

/// A strictly sorted listing of ids: earlier entries are lexicographically
/// smaller, which also rules out duplicates.
pub open spec fn sorted_module_listing(s: Seq<Seq<char>>) -> bool {
    forall|i: int, j: int| 0 <= i < j < s.len() ==> lex_lt(#[trigger] s[i], #[trigger] s[j])
}

/// The subsequence of `ids` whose elements satisfy `keep`, in order.
pub open spec fn kept_ids(ids: Seq<Seq<char>>, keep: spec_fn(Seq<char>) -> bool) -> Seq<Seq<char>>
    decreases ids.len(),
{
    if ids.len() == 0 {
        Seq::empty()
    } else if keep(ids.first()) {
        seq![ids.first()] + kept_ids(ids.drop_first(), keep)
    } else {
        kept_ids(ids.drop_first(), keep)
    }
}

/// An id is in the kept listing exactly when it is in the original listing
/// and satisfies the predicate.
pub proof fn lemma_kept_ids_membership(ids: Seq<Seq<char>>, keep: spec_fn(Seq<char>) -> bool)
    ensures
        forall|x: Seq<char>|
            #[trigger] kept_ids(ids, keep).contains(x) <==> (ids.contains(x) && keep(x)),
    decreases ids.len(),
{
    if ids.len() == 0 {
    } else {
        lemma_kept_ids_membership(ids.drop_first(), keep);
        let rest = ids.drop_first();
        assert forall|x: Seq<char>| ids.contains(x) implies (x == ids.first() || rest.contains(
            x,
        )) by {
            let i = choose|i: int| 0 <= i < ids.len() && ids[i] == x;
            if i > 0 {
                assert(rest[i - 1] == x);
            }
        }
        assert forall|x: Seq<char>| x == ids.first() || rest.contains(x) implies ids.contains(
            x,
        ) by {
            if x == ids.first() {
                assert(ids[0] == x);
            } else {
                let i = choose|i: int| 0 <= i < rest.len() && rest[i] == x;
                assert(ids[i + 1] == x);
            }
        }
        if keep(ids.first()) {
            let whole = seq![ids.first()] + kept_ids(rest, keep);
            assert forall|x: Seq<char>| whole.contains(x) implies (x == ids.first() || kept_ids(
                rest,
                keep,
            ).contains(x)) by {
                let i = choose|i: int| 0 <= i < whole.len() && whole[i] == x;
                if i > 0 {
                    assert(kept_ids(rest, keep)[i - 1] == x);
                }
            }
            assert forall|x: Seq<char>|
                x == ids.first() || kept_ids(rest, keep).contains(x) implies whole.contains(x) by {
                if x == ids.first() {
                    assert(whole[0] == x);
                } else {
                    let i = choose|i: int|
                        0 <= i < kept_ids(rest, keep).len() && kept_ids(rest, keep)[i] == x;
                    assert(whole[i + 1] == x);
                }
            }
        }
    }
}

/// Keeping a subsequence of a strictly sorted listing leaves it strictly
/// sorted.
pub proof fn lemma_kept_ids_sorted(ids: Seq<Seq<char>>, keep: spec_fn(Seq<char>) -> bool)
    requires
        sorted_module_listing(ids),
    ensures
        sorted_module_listing(kept_ids(ids, keep)),
    decreases ids.len(),
{
    if ids.len() == 0 {
    } else {
        let rest = ids.drop_first();
        assert(sorted_module_listing(rest)) by {
            assert forall|i: int, j: int| 0 <= i < j < rest.len() implies lex_lt(
                #[trigger] rest[i],
                #[trigger] rest[j],
            ) by {
                assert(rest[i] == ids[i + 1] && rest[j] == ids[j + 1]);
            }
        }
        lemma_kept_ids_sorted(rest, keep);
        lemma_kept_ids_membership(rest, keep);
        if keep(ids.first()) {
            let tail = kept_ids(rest, keep);
            let whole = seq![ids.first()] + tail;
            assert forall|i: int, j: int| 0 <= i < j < whole.len() implies lex_lt(
                #[trigger] whole[i],
                #[trigger] whole[j],
            ) by {
                if i == 0 {
                    // The first element is smaller than everything kept from
                    // the rest, because it is smaller than everything in the
                    // rest.
                    assert(tail.contains(tail[j - 1]));
                    let k = choose|k: int| 0 <= k < rest.len() && rest[k] == tail[j - 1];
                    assert(rest[k] == ids[k + 1]);
                    assert(lex_lt(ids[0], ids[k + 1]));
                } else {
                    assert(whole[i] == tail[i - 1] && whole[j] == tail[j - 1]);
                }
            }
        }
    }
}

/// Keeping a subsequence of a duplicate-free listing leaves it
/// duplicate-free.
pub proof fn lemma_kept_ids_distinct(ids: Seq<Seq<char>>, keep: spec_fn(Seq<char>) -> bool)
    requires
        forall|i: int, j: int| 0 <= i < j < ids.len() ==> #[trigger] ids[i] != #[trigger] ids[j],
    ensures
        forall|i: int, j: int|
            0 <= i < j < kept_ids(ids, keep).len() ==> #[trigger] kept_ids(ids, keep)[i]
                != #[trigger] kept_ids(ids, keep)[j],
    decreases ids.len(),
{
    if ids.len() == 0 {
    } else {
        let rest = ids.drop_first();
        assert forall|i: int, j: int| 0 <= i < j < rest.len() implies #[trigger] rest[i]
            != #[trigger] rest[j] by {
            assert(rest[i] == ids[i + 1] && rest[j] == ids[j + 1]);
        }
        lemma_kept_ids_distinct(rest, keep);
        lemma_kept_ids_membership(rest, keep);
        if keep(ids.first()) {
            let tail = kept_ids(rest, keep);
            let whole = seq![ids.first()] + tail;
            assert forall|i: int, j: int| 0 <= i < j < whole.len() implies #[trigger] whole[i]
                != #[trigger] whole[j] by {
                if i == 0 {
                    assert(tail.contains(tail[j - 1]));
                    let k = choose|k: int| 0 <= k < rest.len() && rest[k] == tail[j - 1];
                    assert(ids[0] != ids[k + 1]);
                } else {
                    assert(whole[i] == tail[i - 1] && whole[j] == tail[j - 1]);
                }
            }
        }
    }
}

/// Whether a vector of strings holds one equal to `id`.
pub fn contains_str(active: &Vec<String>, id: &str) -> (r: bool)
    ensures
        r == active.deep_view().contains(id@),
{
    let mut i: usize = 0;
    while i < active.len()
        invariant
            i <= active@.len(),
            forall|j: int| 0 <= j < i ==> #[trigger] active.deep_view()[j] != id@,
        decreases active@.len() - i,
    {
        if str_eq(active[i].as_str(), id) {
            proof {
                assert(active.deep_view()[i as int] == id@);
            }
            return true;
        }
        i += 1;
    }
    proof {
        if active.deep_view().contains(id@) {
            let j = choose|j: int|
                0 <= j < active.deep_view().len() && active.deep_view()[j] == id@;
            assert(active.deep_view()[j] != id@);
        }
    }
    false
}


/// A copy of a vector of strings, with the same contents.
pub fn clone_strings(v: &Vec<String>) -> (r: Vec<String>)
    ensures
        r.deep_view() == v.deep_view(),
{
    let mut r: Vec<String> = Vec::new();
    let mut i: usize = 0;
    proof {
        assert(r.deep_view() =~= v.deep_view().take(0));
    }
    while i < v.len()
        invariant
            i <= v@.len(),
            r@.len() == i,
            r.deep_view() == v.deep_view().take(i as int),
        decreases v@.len() - i,
    {
        let ghost pre = r@;
        r.push(v[i].clone());
        proof {
            assert(r@ =~= pre.push(v@[i as int]));
            assert forall|j: int| 0 <= j < r@.len() implies #[trigger] r.deep_view()[j]
                == v.deep_view().take(i + 1)[j] by {
                if j < i {
                    assert(r@[j] == pre[j]);
                    assert(r@[j].deep_view() == v.deep_view().take(i as int)[j]);
                }
            }
            assert(r.deep_view() =~= v.deep_view().take(i + 1));
        }
        i += 1;
    }
    proof {
        assert(r.deep_view() =~= v.deep_view());
    }
    r
}


/// The vector with every occurrence of `id` removed, in order.
pub fn remove_str(v: &Vec<String>, id: &str) -> (r: Vec<String>)
    ensures
        r.deep_view() == kept_ids(v.deep_view(), |x: Seq<char>| x != id@),
{
    let ghost keep = |x: Seq<char>| x != id@;
    let mut r: Vec<String> = Vec::new();
    let mut i: usize = 0;
    proof {
        assert(v.deep_view().skip(0) =~= v.deep_view());
        assert(r.deep_view() + kept_ids(v.deep_view(), keep) =~= kept_ids(
            v.deep_view(),
            keep,
        ));
    }
    while i < v.len()
        invariant
            i <= v@.len(),
            keep == (|x: Seq<char>| x != id@),
            r.deep_view() + kept_ids(v.deep_view().skip(i as int), keep) == kept_ids(
                v.deep_view(),
                keep,
            ),
        decreases v@.len() - i,
    {
        let ghost pre = r.deep_view();
        let ghost tail = v.deep_view().skip(i as int);
        proof {
            assert(tail.len() > 0);
            assert(tail.first() == v.deep_view()[i as int]);
            assert(tail.drop_first() =~= v.deep_view().skip(i + 1));
            assert(v@[i as int]@ == v.deep_view()[i as int]);
        }
        if !str_eq(v[i].as_str(), id) {
            r.push(v[i].clone());
            proof {
                assert(r.deep_view() =~= pre.push(v.deep_view()[i as int]));
                assert(kept_ids(tail, keep) == seq![tail.first()] + kept_ids(
                    tail.drop_first(),
                    keep,
                ));
                assert(r.deep_view() + kept_ids(v.deep_view().skip(i + 1), keep) =~= pre
                    + kept_ids(tail, keep));
            }
        } else {
            proof {
                assert(kept_ids(tail, keep) == kept_ids(tail.drop_first(), keep));
            }
        }
        i += 1;
    }
    proof {
        assert(v.deep_view().skip(v@.len() as int) =~= Seq::<Seq<char>>::empty());
        assert(r.deep_view() =~= r.deep_view() + kept_ids(
            v.deep_view().skip(v@.len() as int),
            keep,
        ));
    }
    r
}



/// A decimal digit.
pub open spec fn is_digit(c: char) -> bool {
    '0' <= c && c <= '9'
}

/// The numeric value of a decimal digit.
pub open spec fn digit_val(c: char) -> nat {
    (c as int - '0' as int) as nat
}

/// Every character of the sequence is a decimal digit.
pub open spec fn all_digits(s: Seq<char>) -> bool {
    forall|i: int| 0 <= i < s.len() ==> is_digit(#[trigger] s[i])
}

/// The value of a sequence of decimal digits, most significant first.
pub open spec fn dec_val(s: Seq<char>) -> nat
    decreases s.len(),
{
    if s.len() == 0 {
        0
    } else {
        dec_val(s.drop_last()) * 10 + digit_val(s.last())
    }
}

/// What parsing a decimal number accepts: an optional leading plus sign,
/// then at least one digit, with a value that fits in a `u64`.
pub open spec fn spec_parse_u64(s: Seq<char>) -> Option<u64> {
    let digits = if s.len() > 0 && s[0] == '+' {
        s.drop_first()
    } else {
        s
    };
    if digits.len() > 0 && all_digits(digits) && dec_val(digits) <= u64::MAX {
        Some(dec_val(digits) as u64)
    } else {
        None
    }
}

/// A digit prefix never exceeds the value of the whole digit string.
proof fn lemma_dec_val_prefix(s: Seq<char>, k: int)
    requires
        0 <= k <= s.len(),
    ensures
        dec_val(s.take(k)) <= dec_val(s),
    decreases s.len() - k,
{
    if k < s.len() {
        assert(s.take(k + 1).drop_last() =~= s.take(k));
        assert(s.take(k + 1).last() == s[k]);
        let x = dec_val(s.take(k));
        assert(x <= x * 10 + digit_val(s[k])) by (nonlinear_arith);
        lemma_dec_val_prefix(s, k + 1);
    } else {
        assert(s.take(k) =~= s);
    }
}

/// Parse a decimal `u64`: an optional leading plus sign, then digits.
/// Returns `None` on an empty digit string, a non-digit character, or a
/// value that does not fit.
pub fn parse_u64(s: &str) -> (r: Option<u64>)
    ensures
        r == spec_parse_u64(s@),
{
    let len = s.unicode_len();
    let mut i: usize = 0;
    if len > 0 && s.get_char(0) == '+' {
        i = 1;
    }
    let ghost digits = if s@.len() > 0 && s@[0] == '+' {
        s@.drop_first()
    } else {
        s@
    };
    let ghost start = i as int;
    proof {
        assert(digits =~= s@.skip(start));
    }
    if i == len {
        proof {
            assert(digits.len() == 0);
        }
        return None;
    }
    let mut v: u64 = 0;
    while i < len
        invariant
            start <= i <= len,
            len == s@.len(),
            start == 0 || start == 1,
            start == 1 ==> s@.len() > 0 && s@[0] == '+',
            start == 0 ==> !(s@.len() > 0 && s@[0] == '+'),
            digits == s@.skip(start),
            digits == (if s@.len() > 0 && s@[0] == '+' {
                s@.drop_first()
            } else {
                s@
            }),
            all_digits(digits.take(i - start)),
            v == dec_val(digits.take(i - start)),
        decreases len - i,
    {
        let c = s.get_char(i);
        proof {
            assert(digits[i - start] == s@[i as int]);
            assert(digits.take(i + 1 - start).drop_last() =~= digits.take(i - start));
            assert(digits.take(i + 1 - start).last() == digits[i - start]);
        }
        if c < '0' || c > '9' {
            proof {
                assert(!is_digit(digits[i - start]));
            }
            return None;
        }
        let d: u64 = (c as u32 - '0' as u32) as u64;
        proof {
            assert(d == digit_val(c));
        }
        if v > u64::MAX / 10 {
            proof {
                assert(dec_val(digits.take(i + 1 - start)) > u64::MAX) by (nonlinear_arith)
                    requires
                        dec_val(digits.take(i + 1 - start)) == dec_val(digits.take(i - start)) * 10
                            + digit_val(digits[i - start]),
                        dec_val(digits.take(i - start)) > u64::MAX / 10,
                ;
                assert(digits.take(len - start) =~= digits);
                lemma_dec_val_prefix(digits, i + 1 - start);
                assert(dec_val(digits) > u64::MAX);
            }
            return None;
        }
        proof {
            assert(v * 10 <= u64::MAX) by (nonlinear_arith)
                requires
                    v <= u64::MAX / 10,
            ;
        }
        let w = v * 10;
        if d > u64::MAX - w {
            proof {
                assert(digits.take(len - start) =~= digits);
                lemma_dec_val_prefix(digits, i + 1 - start);
                assert(dec_val(digits) > u64::MAX);
            }
            return None;
        }
        v = w + d;
        i += 1;
    }
    proof {
        assert(digits.take(len - start) =~= digits);
    }
    Some(v)
}

/// The character of a decimal digit.
pub open spec fn digit_char(d: nat) -> char {
    if d == 0 {
        '0'
    } else if d == 1 {
        '1'
    } else if d == 2 {
        '2'
    } else if d == 3 {
        '3'
    } else if d == 4 {
        '4'
    } else if d == 5 {
        '5'
    } else if d == 6 {
        '6'
    } else if d == 7 {
        '7'
    } else if d == 8 {
        '8'
    } else {
        '9'
    }
}

/// The decimal rendering of a number, most significant digit first.
pub open spec fn dec_string(v: nat) -> Seq<char>
    decreases v,
{
    if v < 10 {
        seq![digit_char(v)]
    } else {
        dec_string(v / 10).push(digit_char(v % 10))
    }
}

fn digit_str(d: u64) -> (r: &'static str)
    requires
        d < 10,
    ensures
        r@ == seq![digit_char(d as nat)],
{
    let s: &'static str = if d == 0 {
        "0"
    } else if d == 1 {
        "1"
    } else if d == 2 {
        "2"
    } else if d == 3 {
        "3"
    } else if d == 4 {
        "4"
    } else if d == 5 {
        "5"
    } else if d == 6 {
        "6"
    } else if d == 7 {
        "7"
    } else if d == 8 {
        "8"
    } else {
        "9"
    };
    proof {
        reveal_strlit("0");
        reveal_strlit("1");
        reveal_strlit("2");
        reveal_strlit("3");
        reveal_strlit("4");
        reveal_strlit("5");
        reveal_strlit("6");
        reveal_strlit("7");
        reveal_strlit("8");
        reveal_strlit("9");
        assert(s@ =~= seq![digit_char(d as nat)]);
    }
    s
}

/// Render a `u64` in decimal.
pub fn u64_to_dec(v: u64) -> (r: String)
    ensures
        r@ == dec_string(v as nat),
    decreases v,
{
    if v < 10 {
        let r = String::from_str(digit_str(v));
        proof {
            assert(r@ =~= dec_string(v as nat));
        }
        r
    } else {
        let mut r = u64_to_dec(v / 10);
        r.append(digit_str(v % 10));
        proof {
            assert(r@ =~= dec_string(v as nat));
        }
        r
    }
}

} // verus!

