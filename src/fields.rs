//! The `;`-separated text payload of a pong, and the integers in it.
use vstd::prelude::*;
use vstd::string::StrSliceExecFns;

verus! {

/// A pong payload carries at most this many fields.
pub const MAX_FIELDS: usize = 9;

/// The pieces of `s` between `;` separators, in order; there is always one
/// more piece than there are separators.
pub open spec fn split_fields(s: Seq<char>) -> Seq<Seq<char>>
    decreases s.len(),
{
    if s.len() == 0 {
        seq![Seq::empty()]
    } else {
        let init = split_fields(s.drop_last());
        if s.last() == ';' {
            init.push(Seq::empty())
        } else {
            init.update(init.len() - 1, init.last().push(s.last()))
        }
    }
}

/// The first nine pieces of `s`.
pub open spec fn payload_fields(s: Seq<char>) -> Seq<Seq<char>> {
    let all = split_fields(s);
    if all.len() <= MAX_FIELDS {
        all
    } else {
        all.take(MAX_FIELDS as int)
    }
}

/// The texts of a vector of strings.
pub open spec fn texts(v: Seq<String>) -> Seq<Seq<char>> {
    v.map_values(|t: String| t@)
}

/// Splitting always yields at least one piece.
pub proof fn lemma_split_nonempty(s: Seq<char>)
    ensures
        split_fields(s).len() >= 1,
    decreases s.len(),
{
    if s.len() > 0 {
        lemma_split_nonempty(s.drop_last());
    }
}

/// Splits a payload into its first nine `;`-separated fields.
pub fn split_payload(text: &str) -> (r: Vec<String>)
    ensures
        texts(r@) == payload_fields(text@),
{
    let n = text.unicode_len();
    let mut parts: Vec<String> = Vec::new();
    let mut start: usize = 0;
    let mut i: usize = 0;
    assert(text@.take(0) =~= Seq::<char>::empty());
    assert(texts(parts@).push(text@.subrange(0, 0)) =~= split_fields(text@.take(0)));
    while i < n
        invariant
            n == text@.len(),
            start <= i <= n,
            texts(parts@).push(text@.subrange(start as int, i as int)) == split_fields(
                text@.take(i as int),
            ),
        decreases n - i,
    {
        let c = text.get_char(i);
        let ghost before = texts(parts@);
        assert(text@.take(i + 1).drop_last() =~= text@.take(i as int));
        assert(text@.take(i + 1).last() == c);
        if c == ';' {
            let piece = text.substring_char(start, i);
            parts.push(piece.to_owned());
            assert(texts(parts@) =~= before.push(text@.subrange(start as int, i as int)));
            start = i + 1;
            assert(split_fields(text@.take(i + 1)) == split_fields(text@.take(i as int)).push(
                Seq::empty(),
            ));
            assert(text@.subrange(start as int, (i + 1) as int) =~= Seq::<char>::empty());
            assert(texts(parts@).push(text@.subrange(start as int, (i + 1) as int)) =~= split_fields(
                text@.take(i + 1),
            ));
        } else {
            assert(text@.subrange(start as int, (i + 1) as int) =~= text@.subrange(
                start as int,
                i as int,
            ).push(c));
            assert(texts(parts@).push(text@.subrange(start as int, (i + 1) as int)) =~= split_fields(
                text@.take(i + 1),
            ));
        }
        i = i + 1;
    }
    let last = text.substring_char(start, n);
    let ghost before = texts(parts@);
    parts.push(last.to_owned());
    assert(text@.take(n as int) =~= text@);
    assert(texts(parts@) =~= before.push(text@.subrange(start as int, n as int)));
    if parts.len() > MAX_FIELDS {
        parts.truncate(MAX_FIELDS);
        assert(texts(parts@) =~= split_fields(text@).take(MAX_FIELDS as int));
    }
    parts
}

/// The fields written out with a `;` between each two.
pub open spec fn join_fields(f: Seq<Seq<char>>) -> Seq<char>
    decreases f.len(),
{
    if f.len() == 0 {
        Seq::empty()
    } else if f.len() == 1 {
        f[0]
    } else {
        join_fields(f.drop_last()).push(';') + f.last()
    }
}

pub open spec fn no_separator(t: Seq<char>) -> bool {
    forall|i: int| 0 <= i < t.len() ==> #[trigger] t[i] != ';'
}

/// Text without a separator lengthens the last piece.
pub proof fn lemma_split_append_plain(x: Seq<char>, b: Seq<char>)
    requires
        no_separator(b),
    ensures
        split_fields(x + b) == split_fields(x).update(
            split_fields(x).len() - 1,
            split_fields(x).last() + b,
        ),
    decreases b.len(),
{
    lemma_split_nonempty(x);
    let sx = split_fields(x);
    if b.len() == 0 {
        assert(x + b =~= x);
        assert(sx.last() + b =~= sx.last());
        assert(sx.update(sx.len() - 1, sx.last()) =~= sx);
    } else {
        let bi = b.drop_last();
        assert(no_separator(bi));
        lemma_split_append_plain(x, bi);
        assert((x + b).drop_last() =~= x + bi);
        assert((x + b).last() == b.last());
        assert(b.last() != ';');
        assert(sx.last() + bi + seq![b.last()] =~= sx.last() + b);
        let mid = split_fields(x + bi);
        assert(mid == sx.update(sx.len() - 1, sx.last() + bi));
        assert(mid.len() == sx.len());
        assert(mid.last() == sx.last() + bi);
        assert(split_fields(x + b) == mid.update(mid.len() - 1, mid.last().push(b.last())));
        assert(mid.last().push(b.last()) =~= sx.last() + b);
        assert(split_fields(x + b) =~= sx.update(sx.len() - 1, sx.last() + b));
    }
}

/// Splitting the joined fields gives the fields back, where none holds `;`.
pub proof fn lemma_split_join(f: Seq<Seq<char>>)
    requires
        f.len() >= 1,
        forall|i: int| 0 <= i < f.len() ==> no_separator(#[trigger] f[i]),
    ensures
        split_fields(join_fields(f)) == f,
    decreases f.len(),
{
    if f.len() == 1 {
        lemma_split_append_plain(Seq::empty(), f[0]);
        assert(Seq::<char>::empty() + f[0] =~= f[0]);
        assert(split_fields(Seq::<char>::empty()) =~= seq![Seq::<char>::empty()]);
        assert(Seq::<char>::empty() + f[0] =~= f[0]);
        assert(split_fields(f[0]) =~= f);
    } else {
        let fi = f.drop_last();
        assert forall|i: int| 0 <= i < fi.len() implies no_separator(#[trigger] fi[i]) by {
            assert(fi[i] == f[i]);
        }
        lemma_split_join(fi);
        let j = join_fields(fi).push(';');
        assert(no_separator(f[f.len() - 1]));
        lemma_split_append_plain(j, f.last());
        assert(j.drop_last() =~= join_fields(fi));
        assert(split_fields(j) == fi.push(Seq::empty()));
        assert(Seq::<char>::empty() + f.last() =~= f.last());
        assert(split_fields(join_fields(f)) =~= f);
    }
}

/// Past this magnitude no digit string fits an `i32`, whatever its sign.
const MAGNITUDE_CAP: i64 = 2147483649;

pub open spec fn is_digit(c: char) -> bool {
    '0' <= c <= '9'
}

/// The value of a string of decimal digits, most significant first.
pub open spec fn digits_value(s: Seq<char>) -> int
    decreases s.len(),
{
    if s.len() == 0 {
        0
    } else {
        digits_value(s.drop_last()) * 10 + (s.last() as int - '0' as int)
    }
}

pub open spec fn all_digits(s: Seq<char>) -> bool {
    forall|i: int| 0 <= i < s.len() ==> is_digit(#[trigger] s[i])
}

pub open spec fn has_sign(s: Seq<char>) -> bool {
    s.len() > 0 && (s[0] == '+' || s[0] == '-')
}

/// `s` without its sign, if it has one.
pub open spec fn magnitude_part(s: Seq<char>) -> Seq<char> {
    if has_sign(s) {
        s.drop_first()
    } else {
        s
    }
}

/// The integer that `s` writes in decimal: an optional `+` or `-`, then one
/// or more digits and nothing else.
pub open spec fn decimal_value(s: Seq<char>) -> Option<int> {
    let m = magnitude_part(s);
    if m.len() > 0 && all_digits(m) {
        Some(
            if has_sign(s) && s[0] == '-' {
                -digits_value(m)
            } else {
                digits_value(m)
            },
        )
    } else {
        None
    }
}

/// What parsing `s` as an `i32` gives: its decimal value where that is in range.
pub open spec fn parse_i32(s: Seq<char>) -> Option<i32> {
    match decimal_value(s) {
        Some(v) => if i32::MIN <= v <= i32::MAX {
            Some(v as i32)
        } else {
            None
        },
        None => None,
    }
}

proof fn lemma_digits_nonneg(s: Seq<char>)
    requires
        all_digits(s),
    ensures
        digits_value(s) >= 0,
    decreases s.len(),
{
    if s.len() > 0 {
        assert(is_digit(s[s.len() - 1]));
        lemma_digits_nonneg(s.drop_last());
    }
}

/// Parses a whole field as an `i32`, with an optional sign; `None` for
/// anything else or for a value out of range.
pub fn parse_i32_text(s: &str) -> (r: Option<i32>)
    ensures
        r == parse_i32(s@),
{
    let n = s.unicode_len();
    if n == 0 {
        return None;
    }
    let first = s.get_char(0);
    let neg = first == '-';
    let begin: usize = if first == '-' || first == '+' {
        1
    } else {
        0
    };
    let ghost m = s@.subrange(begin as int, n as int);
    assert(m =~= magnitude_part(s@));
    if begin == n {
        assert(magnitude_part(s@).len() == 0);
        assert(decimal_value(s@) is None);
        return None;
    }
    let mut acc: i64 = 0;
    let mut i: usize = begin;
    assert(s@.subrange(begin as int, begin as int) =~= Seq::<char>::empty());
    while i < n
        invariant
            begin <= i <= n,
            n == s@.len(),
            m == s@.subrange(begin as int, n as int),
            m == magnitude_part(s@),
            neg == (has_sign(s@) && s@[0] == '-'),
            all_digits(s@.subrange(begin as int, i as int)),
            0 <= acc <= MAGNITUDE_CAP,
            acc == if digits_value(s@.subrange(begin as int, i as int)) < MAGNITUDE_CAP {
                digits_value(s@.subrange(begin as int, i as int))
            } else {
                MAGNITUDE_CAP as int
            },
        decreases n - i,
    {
        let c = s.get_char(i);
        if c < '0' || c > '9' {
            assert(!is_digit(m[i - begin]));
            return None;
        }
        let ghost pre = s@.subrange(begin as int, i as int);
        let ghost next = s@.subrange(begin as int, i + 1);
        assert(next.drop_last() =~= pre);
        assert(all_digits(next));
        proof {
            lemma_digits_nonneg(pre);
        }
        let d = (c as u32 - '0' as u32) as i64;
        acc = if acc * 10 + d > MAGNITUDE_CAP {
            MAGNITUDE_CAP
        } else {
            acc * 10 + d
        };
        i = i + 1;
    }
    assert(s@.subrange(begin as int, n as int) == m);
    if neg {
        if acc > 2147483648 {
            None
        } else {
            Some((-acc) as i32)
        }
    } else {
        if acc > 2147483647 {
            None
        } else {
            Some(acc as i32)
        }
    }
}

} // verus!
