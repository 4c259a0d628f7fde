//! Small shared helpers: string-slice equality, identifier and clock
//! wrappers over the outside world, and verified decimal rendering used for
//! generated step ids and duration display.

use vstd::prelude::*;

verus! {

/// Relies on str's `PartialEq`: two string slices compare equal exactly when
/// their character sequences are equal.
#[verifier::external_body]
pub(crate) fn str_eq(a: &str, b: &str) -> (r: bool)
    ensures
        r <==> a@ == b@,
{
    a == b
}

/// Relies on uuid's `Uuid::new_v4` and its `Display` impl: a fresh random
/// identifier rendered in the hyphenated form, which is 36 characters long.
/// Nothing is assumed about which identifier comes back.
#[verifier::external_body]
pub(crate) fn fresh_id() -> (r: String)
    ensures
        r@.len() == 36,
{
    uuid::Uuid::new_v4().to_string()
}

/// Relies on chrono's `Utc::now` and `DateTime::timestamp_millis`: the
/// current wall-clock time in milliseconds since the epoch. Nothing is
/// assumed about the value: the clock may move arbitrarily between calls.
#[verifier::external_body]
pub(crate) fn now_millis() -> (r: u64)
{
    chrono::Utc::now().timestamp_millis() as u64
}

/// The character for one decimal digit.
pub open spec fn spec_digit_char(d: int) -> char {
    if d == 0 {
        '0'
    } else if d == 1 {
        '1'
    } else if d == 2 {
        '2'
    } else if d == 3 {
        '3'
    } else if d == 4 {
        '4'
    } else if d == 5 {
        '5'
    } else if d == 6 {
        '6'
    } else if d == 7 {
        '7'
    } else if d == 8 {
        '8'
    } else {
        '9'
    }
}

/// The decimal rendering of a non-negative integer, most significant digit
/// first, with no leading zeroes (a single `'0'` for zero).
pub open spec fn spec_decimal(x: int) -> Seq<char>
    decreases x,
{
    if x < 10 {
        seq![spec_digit_char(x)]
    } else {
        spec_decimal(x / 10).push(spec_digit_char(x % 10))
    }
}

/// The digits of `ds`, least significant first, rendered most significant
/// first.
pub open spec fn spec_rev_digit_chars(ds: Seq<u64>) -> Seq<char> {
    Seq::new(ds.len(), |k: int| spec_digit_char(ds[ds.len() - 1 - k] as int))
}

fn push_digit_char(s: &mut String, d: u64)
    requires
        d < 10,
    ensures
        final(s)@ == old(s)@.push(spec_digit_char(d as int)),
{
    proof {
        reveal_strlit("0");
        reveal_strlit("1");
        reveal_strlit("2");
        reveal_strlit("3");
        reveal_strlit("4");
        reveal_strlit("5");
        reveal_strlit("6");
        reveal_strlit("7");
        reveal_strlit("8");
        reveal_strlit("9");
    }
    if d == 0 {
        s.append("0");
    } else if d == 1 {
        s.append("1");
    } else if d == 2 {
        s.append("2");
    } else if d == 3 {
        s.append("3");
    } else if d == 4 {
        s.append("4");
    } else if d == 5 {
        s.append("5");
    } else if d == 6 {
        s.append("6");
    } else if d == 7 {
        s.append("7");
    } else if d == 8 {
        s.append("8");
    } else {
        s.append("9");
    }
    proof {
        assert(s@ =~= old(s)@.push(spec_digit_char(d as int)));
    }
}

/// Renders an unsigned integer in decimal.
pub fn u64_to_string(x: u64) -> (r: String)
    ensures
        r@ == spec_decimal(x as int),
{
    let mut digits: Vec<u64> = Vec::new();
    let mut v: u64 = x;
    loop
        invariant_except_break
            forall|k: int| 0 <= k < digits@.len() ==> #[trigger] digits@[k] < 10,
            spec_decimal(x as int) == spec_decimal(v as int).add(spec_rev_digit_chars(digits@)),
        ensures
            forall|k: int| 0 <= k < digits@.len() ==> #[trigger] digits@[k] < 10,
            spec_decimal(x as int) == spec_rev_digit_chars(digits@),
        decreases v,
    {
        let d = v % 10;
        let next = v / 10;
        proof {
            let ds = digits@;
            let ds2 = ds.push(d);
            assert(spec_rev_digit_chars(ds2) =~= seq![spec_digit_char(d as int)].add(
                spec_rev_digit_chars(ds),
            ));
            if v >= 10 {
                assert(spec_decimal(v as int) == spec_decimal(next as int).push(
                    spec_digit_char(d as int),
                ));
                assert(spec_decimal(v as int).add(spec_rev_digit_chars(ds)) =~= spec_decimal(
                    next as int,
                ).add(spec_rev_digit_chars(ds2)));
            } else {
                assert(spec_decimal(v as int) =~= seq![spec_digit_char(v as int)]);
                assert(d == v);
                assert(spec_decimal(v as int).add(spec_rev_digit_chars(ds)) =~=
                    spec_rev_digit_chars(ds2));
            }
        }
        digits.push(d);
        if next == 0 {
            break ;
        }
        v = next;
    }
    // here: spec_decimal(x) == spec_rev_digit_chars(digits@), since the
    // remaining value was below ten and its digit is already in the vector
    let ghost ds = digits@;
    let mut r = String::new();
    let mut i: usize = digits.len();
    while i > 0
        invariant
            i <= digits@.len(),
            digits@ == ds,
            forall|k: int| 0 <= k < ds.len() ==> #[trigger] ds[k] < 10,
            r@ == spec_rev_digit_chars(ds).take(ds.len() - i),
        decreases i,
    {
        i = i - 1;
        let d = digits[i];
        push_digit_char(&mut r, d);
        proof {
            assert(r@ =~= spec_rev_digit_chars(ds).take(ds.len() - i));
        }
    }
    proof {
        assert(r@ =~= spec_decimal(x as int));
    }
    r
}

/// The human-readable form of a duration in seconds: seconds alone under a
/// minute, minutes and seconds under an hour, and hours, minutes and seconds
/// beyond that.
pub open spec fn spec_duration(seconds: int) -> Seq<char> {
    if seconds < 60 {
        spec_decimal(seconds) + "s"@
    } else if seconds < 3600 {
        spec_decimal(seconds / 60) + "m "@ + spec_decimal(seconds % 60) + "s"@
    } else {
        spec_decimal(seconds / 3600) + "h "@ + spec_decimal((seconds % 3600) / 60) + "m "@
            + spec_decimal(seconds % 60) + "s"@
    }
}

/// Formats a duration in seconds for display.
pub fn format_duration(seconds: u64) -> (r: String)
    ensures
        r@ == spec_duration(seconds as int),
{
    if seconds < 60 {
        let mut r = u64_to_string(seconds);
        r.append("s");
        r
    } else if seconds < 3600 {
        let mut r = u64_to_string(seconds / 60);
        r.append("m ");
        let rest = u64_to_string(seconds % 60);
        r.append(rest.as_str());
        r.append("s");
        r
    } else {
        let mut r = u64_to_string(seconds / 3600);
        r.append("h ");
        let mins = u64_to_string((seconds % 3600) / 60);
        r.append(mins.as_str());
        r.append("m ");
        let secs = u64_to_string(seconds % 60);
        r.append(secs.as_str());
        r.append("s");
        r
    }
}


/// Copies a list of names; the copy reads the same.
pub fn clone_names(v: &Vec<String>) -> (r: Vec<String>)
    ensures
        r@.len() == v@.len(),
        forall|i: int| 0 <= i < v@.len() ==> #[trigger] r@[i]@ == v@[i]@,
{
    let mut r: Vec<String> = Vec::new();
    let n = v.len();
    let mut i: usize = 0;
    while i < n
        invariant
            i <= n,
            n == v@.len(),
            r@.len() == i,
            forall|j: int| 0 <= j < i ==> #[trigger] r@[j]@ == v@[j]@,
        decreases n - i,
    {
        r.push(v[i].clone());
        i = i + 1;
    }
    r
}

/// Copies an association list of string pairs; the copy reads the same.
pub fn clone_pairs(v: &Vec<(String, String)>) -> (r: Vec<(String, String)>)
    ensures
        r@.len() == v@.len(),
        forall|i: int|
            0 <= i < v@.len() ==> #[trigger] r@[i].0@ == v@[i].0@ && r@[i].1@ == v@[i].1@,
{
    let mut r: Vec<(String, String)> = Vec::new();
    let n = v.len();
    let mut i: usize = 0;
    while i < n
        invariant
            i <= n,
            n == v@.len(),
            r@.len() == i,
            forall|j: int| 0 <= j < i ==> #[trigger] r@[j].0@ == v@[j].0@ && r@[j].1@ == v@[j].1@,
        decreases n - i,
    {
        let pair = (v[i].0.clone(), v[i].1.clone());
        r.push(pair);
        i = i + 1;
    }
    r
}


/// The parts joined by the separator.
pub open spec fn spec_join(parts: Seq<Seq<char>>, sep: Seq<char>) -> Seq<char>
    decreases parts.len(),
{
    if parts.len() == 0 {
        Seq::<char>::empty()
    } else if parts.len() == 1 {
        parts[0]
    } else {
        parts[0] + sep + spec_join(parts.drop_first(), sep)
    }
}

proof fn lemma_join_push(parts: Seq<Seq<char>>, sep: Seq<char>, x: Seq<char>)
    ensures
        spec_join(parts.push(x), sep) == if parts.len() == 0 {
            x
        } else {
            spec_join(parts, sep) + sep + x
        },
    decreases parts.len(),
{
    let p2 = parts.push(x);
    if parts.len() == 0 {
        assert(p2.len() == 1);
        assert(p2[0] == x);
    } else {
        assert(p2.drop_first() =~= parts.drop_first().push(x));
        lemma_join_push(parts.drop_first(), sep, x);
        if parts.len() == 1 {
            assert(spec_join(parts, sep) == parts[0]);
            assert(spec_join(p2, sep) =~= parts[0] + sep + x);
        } else {
            assert(spec_join(p2, sep) =~= spec_join(parts, sep) + sep + x);
        }
    }
}

/// Joins names with a separator.
pub fn join_names(v: &Vec<String>, sep: &str) -> (r: String)
    ensures
        r@ == spec_join(v.deep_view(), sep@),
{
    let n = v.len();
    let mut r = String::new();
    let mut i: usize = 0;
    proof {
        assert(v.deep_view().take(0) =~= Seq::<Seq<char>>::empty());
    }
    while i < n
        invariant
            i <= n,
            n == v@.len(),
            r@ == spec_join(v.deep_view().take(i as int), sep@),
        decreases n - i,
    {
        if i > 0 {
            r.append(sep);
        }
        r.append(v[i].as_str());
        proof {
            let dv = v.deep_view();
            assert(dv.take(i + 1) =~= dv.take(i as int).push(dv[i as int]));
            lemma_join_push(dv.take(i as int), sep@, dv[i as int]);
            assert(dv[i as int] == v@[i as int]@);
        }
        i = i + 1;
    }
    proof {
        assert(v.deep_view().take(n as int) =~= v.deep_view());
    }
    r
}

} // verus!
