//! Small verified helpers over strings and characters used throughout
//! the crate: equality, ASCII-case-insensitive equality, splitting on a
//! separator character and joining with one.

use vstd::prelude::*;

verus! {

/// Character-wise ASCII-case-insensitive equality: equal outright, or the
/// same letter with the two ASCII cases.
pub open spec fn char_eq_ignore_ascii_case(a: char, b: char) -> bool {
    a == b
    || ('A' <= a && a <= 'Z' && a as int + 32 == b as int)
    || ('A' <= b && b <= 'Z' && b as int + 32 == a as int)
}

/// ASCII-case-insensitive equality of two character sequences.
pub open spec fn eq_ignore_ascii_case(a: Seq<char>, b: Seq<char>) -> bool {
    a.len() == b.len() && forall|i: int| 0 <= i < a.len() ==> char_eq_ignore_ascii_case(a[i], b[i])
}

/// String equality by contents.
pub fn str_eq(a: &str, b: &str) -> (r: bool)
    ensures
        r == (a@ == b@),
{
    let a_len = a.unicode_len();
    let b_len = b.unicode_len();
    if a_len != b_len {
        return false;
    }
    let mut i: usize = 0;
    while i < a_len
        invariant
            i <= a_len,
            a_len == a@.len(),
            a_len == b@.len(),
            forall|j: int| 0 <= j < i ==> a@[j] == b@[j],
        decreases a_len - i,
    {
        if a.get_char(i) != b.get_char(i) {
            return false;
        }
        i += 1;
    }
    proof {
        assert(a@ =~= b@);
    }
    true
}

/// String equality up to ASCII case.
pub fn str_eq_ignore_ascii_case(a: &str, b: &str) -> (r: bool)
    ensures
        r == eq_ignore_ascii_case(a@, b@),
{
    let a_len = a.unicode_len();
    let b_len = b.unicode_len();
    if a_len != b_len {
        return false;
    }
    let mut i: usize = 0;
    while i < a_len
        invariant
            i <= a_len,
            a_len == a@.len(),
            a_len == b@.len(),
            forall|j: int| 0 <= j < i ==> char_eq_ignore_ascii_case(a@[j], b@[j]),
        decreases a_len - i,
    {
        let ca = a.get_char(i);
        let cb = b.get_char(i);
        let same = if ca == cb {
            true
        } else if 'A' <= ca && ca <= 'Z' && (ca as u32) + 32 == cb as u32 {
            true
        } else {
            'A' <= cb && cb <= 'Z' && (cb as u32) + 32 == ca as u32
        };
        if !same {
            return false;
        }
        i += 1;
    }
    true
}

/// Three-way comparison outcome.
#[derive(Debug, Clone, Copy, PartialEq, Eq, Structural)]
pub enum Cmp {
    Lt,
    Eq,
    Gt,
}

/// Lexicographic three-way comparison of character sequences, by scalar
/// value of the first differing character, a prefix ordering before any
/// extension of it.
pub open spec fn chars_cmp(a: Seq<char>, b: Seq<char>) -> Cmp
    decreases a.len(),
{
    if a.len() == 0 && b.len() == 0 {
        Cmp::Eq
    } else if a.len() == 0 {
        Cmp::Lt
    } else if b.len() == 0 {
        Cmp::Gt
    } else if a[0] != b[0] {
        if a[0] < b[0] {
            Cmp::Lt
        } else {
            Cmp::Gt
        }
    } else {
        chars_cmp(a.skip(1), b.skip(1))
    }
}

/// Comparing a sequence with itself yields `Eq`; `Eq` only between equal
/// sequences.
pub proof fn lemma_chars_cmp_eq(a: Seq<char>, b: Seq<char>)
    ensures
        chars_cmp(a, b) == Cmp::Eq <==> a == b,
    decreases a.len(),
{
    if a.len() == 0 || b.len() == 0 {
        if a.len() == 0 && b.len() == 0 {
            assert(a =~= b);
        }
    } else if a[0] == b[0] {
        lemma_chars_cmp_eq(a.skip(1), b.skip(1));
        if chars_cmp(a, b) == Cmp::Eq {
            assert(a =~= seq![a[0]] + a.skip(1));
            assert(b =~= seq![b[0]] + b.skip(1));
        } else {
            if a == b {
                assert(a.skip(1) == b.skip(1));
            }
        }
    } else {
        if a == b {
            assert(a[0] == b[0]);
        }
    }
}

/// Lexicographic comparison of two strings.
pub fn str_cmp(a: &str, b: &str) -> (r: Cmp)
    ensures
        r == chars_cmp(a@, b@),
{
    let a_len = a.unicode_len();
    let b_len = b.unicode_len();
    let mut i: usize = 0;
    proof {
        assert(a@.skip(0) =~= a@);
        assert(b@.skip(0) =~= b@);
    }
    loop
        invariant
            i <= a_len,
            i <= b_len,
            a_len == a@.len(),
            b_len == b@.len(),
            chars_cmp(a@, b@) == chars_cmp(a@.skip(i as int), b@.skip(i as int)),
        decreases a_len - i,
    {
        if i == a_len && i == b_len {
            return Cmp::Eq;
        }
        if i == a_len {
            return Cmp::Lt;
        }
        if i == b_len {
            return Cmp::Gt;
        }
        let ca = a.get_char(i);
        let cb = b.get_char(i);
        if ca != cb {
            if ca < cb {
                return Cmp::Lt;
            } else {
                return Cmp::Gt;
            }
        }
        proof {
            assert(a@.skip(i as int).skip(1) =~= a@.skip(i + 1));
            assert(b@.skip(i as int).skip(1) =~= b@.skip(i + 1));
        }
        i += 1;
    }
}

/// Whether the text is a non-empty run of ASCII digits.
pub open spec fn is_digits(s: Seq<char>) -> bool {
    s.len() > 0 && forall|i: int| 0 <= i < s.len() ==> '0' <= #[trigger] s[i] && s[i] <= '9'
}

/// Checks whether the text is a non-empty run of ASCII digits.
pub fn check_digits(s: &str) -> (r: bool)
    ensures
        r == is_digits(s@),
{
    let len = s.unicode_len();
    if len == 0 {
        return false;
    }
    let mut i: usize = 0;
    while i < len
        invariant
            i <= len,
            len == s@.len(),
            forall|j: int| 0 <= j < i ==> '0' <= #[trigger] s@[j] && s@[j] <= '9',
        decreases len - i,
    {
        let c = s.get_char(i);
        if c < '0' || c > '9' {
            return false;
        }
        i += 1;
    }
    true
}

/// The segments of `s` between occurrences of `sep`, in order. Splitting
/// always yields at least one segment; the empty text yields one empty
/// segment.
pub open spec fn spec_split(s: Seq<char>, sep: char) -> Seq<Seq<char>>
    decreases s.len(),
{
    if s.len() == 0 {
        seq![Seq::<char>::empty()]
    } else if s[0] == sep {
        seq![Seq::<char>::empty()] + spec_split(s.skip(1), sep)
    } else {
        let rest = spec_split(s.skip(1), sep);
        seq![seq![s[0]] + rest[0]] + rest.skip(1)
    }
}

/// Splitting yields at least one segment.
pub proof fn lemma_split_len(s: Seq<char>, sep: char)
    ensures
        spec_split(s, sep).len() >= 1,
    decreases s.len(),
{
    if s.len() != 0 {
        lemma_split_len(s.skip(1), sep);
    }
}

/// The segments joined back with the separator, the inverse of
/// `spec_split`.
pub open spec fn spec_join(parts: Seq<Seq<char>>, sep: char) -> Seq<char>
    decreases parts.len(),
{
    if parts.len() == 0 {
        Seq::<char>::empty()
    } else if parts.len() == 1 {
        parts[0]
    } else {
        parts[0] + seq![sep] + spec_join(parts.skip(1), sep)
    }
}

/// Law: joining the segments of a split reproduces the original text, for
/// every text and separator.
pub proof fn lemma_split_join(s: Seq<char>, sep: char)
    ensures
        spec_join(spec_split(s, sep), sep) == s,
    decreases s.len(),
{
    if s.len() == 0 {
        assert(spec_join(spec_split(s, sep), sep) =~= s);
    } else if s[0] == sep {
        lemma_split_join(s.skip(1), sep);
        lemma_split_len(s.skip(1), sep);
        let rest = spec_split(s.skip(1), sep);
        assert(spec_split(s, sep) == seq![Seq::<char>::empty()] + rest);
        assert((seq![Seq::<char>::empty()] + rest).skip(1) =~= rest);
        assert(spec_join(spec_split(s, sep), sep) =~= s);
    } else {
        lemma_split_join(s.skip(1), sep);
        lemma_split_len(s.skip(1), sep);
        let rest = spec_split(s.skip(1), sep);
        let combined = seq![seq![s[0]] + rest[0]] + rest.skip(1);
        assert(spec_split(s, sep) == combined);
        if rest.len() == 1 {
            assert(combined.len() == 1);
            assert(spec_join(combined, sep) == seq![s[0]] + rest[0]);
            assert(spec_join(rest, sep) == rest[0]);
            assert(seq![s[0]] + rest[0] =~= s);
        } else {
            assert(combined.len() >= 2);
            assert(combined.skip(1) =~= rest.skip(1));
            assert(spec_join(combined, sep) == seq![s[0]] + rest[0] + seq![sep] + spec_join(
                rest.skip(1),
                sep,
            ));
            assert(spec_join(rest, sep) == rest[0] + seq![sep] + spec_join(rest.skip(1), sep));
            assert(seq![s[0]] + rest[0] + seq![sep] + spec_join(rest.skip(1), sep) =~= seq![s[0]]
                + (rest[0] + seq![sep] + spec_join(rest.skip(1), sep)));
            assert(seq![s[0]] + s.skip(1) =~= s);
        }
    }
}

/// A text without the separator splits into itself alone.
proof fn lemma_split_no_sep(t: Seq<char>, sep: char)
    requires
        forall|j: int| 0 <= j < t.len() ==> t[j] != sep,
    ensures
        spec_split(t, sep) == seq![t],
    decreases t.len(),
{
    if t.len() == 0 {
        assert(t =~= Seq::<char>::empty());
        assert(spec_split(t, sep) =~= seq![t]);
    } else {
        lemma_split_no_sep(t.skip(1), sep);
        let rest = spec_split(t.skip(1), sep);
        assert(rest == seq![t.skip(1)]);
        assert(spec_split(t, sep) == seq![seq![t[0]] + rest[0]] + rest.skip(1));
        assert(rest.skip(1) =~= Seq::<Seq<char>>::empty());
        assert(seq![t[0]] + rest[0] =~= t);
        assert(seq![seq![t[0]] + rest[0]] + rest.skip(1) =~= seq![t]);
    }
}

/// Splitting at the first separator: the leading clean segment, then the
/// segments of what follows it.
proof fn lemma_split_at_sep(t: Seq<char>, k: int, sep: char)
    requires
        0 <= k < t.len(),
        t[k] == sep,
        forall|j: int| 0 <= j < k ==> t[j] != sep,
    ensures
        spec_split(t, sep) == seq![t.take(k)] + spec_split(t.skip(k + 1), sep),
    decreases k,
{
    if k == 0 {
        assert(t.take(0) =~= Seq::<char>::empty());
        assert(spec_split(t, sep) =~= seq![t.take(0)] + spec_split(t.skip(1), sep));
    } else {
        lemma_split_at_sep(t.skip(1), k - 1, sep);
        lemma_split_len(t.skip(1), sep);
        let rest = spec_split(t.skip(1), sep);
        assert(rest == seq![t.skip(1).take(k - 1)] + spec_split(t.skip(1).skip(k), sep));
        assert(rest[0] == t.skip(1).take(k - 1));
        assert(seq![t[0]] + t.skip(1).take(k - 1) =~= t.take(k));
        assert(t.skip(1).skip(k) =~= t.skip(k + 1));
        assert(rest.skip(1) =~= spec_split(t.skip(k + 1), sep));
        assert(spec_split(t, sep) =~= seq![t.take(k)] + spec_split(t.skip(k + 1), sep));
    }
}

/// The views of a vector of strings.
pub open spec fn views_of(parts: Seq<String>) -> Seq<Seq<char>> {
    parts.map_values(|p: String| p@)
}

/// Splits a string on every occurrence of the separator.
pub fn split_on(s: &str, sep: char) -> (parts: Vec<String>)
    ensures
        views_of(parts@) == spec_split(s@, sep),
{
    let len = s.unicode_len();
    let mut parts: Vec<String> = Vec::new();
    let mut start: usize = 0;
    let mut i: usize = 0;
    proof {
        assert(s@.skip(0) =~= s@);
        assert(views_of(parts@) + spec_split(s@, sep) =~= spec_split(s@, sep));
    }
    while i < len
        invariant
            start <= i <= len,
            len == s@.len(),
            spec_split(s@, sep) == views_of(parts@) + spec_split(
                s@.skip(start as int),
                sep,
            ),
            forall|j: int| start <= j < i ==> s@[j] != sep,
        decreases len - i,
    {
        if s.get_char(i) == sep {
            let part = String::from_str(s.substring_char(start, i));
            proof {
                let t = s@.skip(start as int);
                lemma_split_at_sep(t, i - start, sep);
                assert(t.take(i - start) =~= s@.subrange(start as int, i as int));
                assert(t.skip(i - start + 1) =~= s@.skip(i + 1));
                assert(views_of(parts@.push(part)) =~= views_of(parts@) + seq![part@]);
                assert(views_of(parts@) + (seq![t.take(i - start)] + spec_split(
                    s@.skip(i + 1),
                    sep,
                )) =~= views_of(parts@.push(part)) + spec_split(s@.skip(i + 1), sep));
            }
            parts.push(part);
            start = i + 1;
        }
        i += 1;
    }
    let last = String::from_str(s.substring_char(start, len));
    proof {
        let t = s@.skip(start as int);
        lemma_split_no_sep(t, sep);
        assert(t =~= s@.subrange(start as int, len as int));
        assert(views_of(parts@.push(last)) =~= views_of(parts@) + seq![last@]);
    }
    parts.push(last);
    parts
}

/// Joining after adding one more segment appends a separator and that
/// segment.
proof fn lemma_join_snoc(parts: Seq<Seq<char>>, x: Seq<char>, sep: char)
    requires
        parts.len() >= 1,
    ensures
        spec_join(parts.push(x), sep) == spec_join(parts, sep) + seq![sep] + x,
    decreases parts.len(),
{
    if parts.len() == 1 {
        assert(parts.push(x).len() == 2);
        assert(parts.push(x).skip(1) =~= seq![x]);
        assert(spec_join(seq![x], sep) == x);
        assert(parts.push(x)[0] == parts[0]);
    } else {
        lemma_join_snoc(parts.skip(1), x, sep);
        assert(parts.push(x).skip(1) =~= parts.skip(1).push(x));
        assert(parts.push(x)[0] == parts[0]);
        assert(parts[0] + seq![sep] + (spec_join(parts.skip(1), sep) + seq![sep] + x) =~= parts[0]
            + seq![sep] + spec_join(parts.skip(1), sep) + seq![sep] + x);
    }
}

/// Joins the strings with a one-character separator.
pub fn join_with(parts: &Vec<String>, sep_str: &str) -> (r: String)
    requires
        sep_str@.len() == 1,
    ensures
        r@ == spec_join(views_of(parts@), sep_str@[0]),
{
    let ghost sep = sep_str@[0];
    let mut r = String::new();
    let mut i: usize = 0;
    while i < parts.len()
        invariant
            i <= parts@.len(),
            sep_str@.len() == 1,
            sep == sep_str@[0],
            r@ == spec_join(views_of(parts@).take(i as int), sep),
        decreases parts@.len() - i,
    {
        if i > 0 {
            r.append(sep_str);
            proof {
                assert(seq![sep] =~= sep_str@);
            }
        }
        r.append(parts[i].as_str());
        proof {
            let vs = views_of(parts@);
            assert(vs.take(i as int).push(vs[i as int]) =~= vs.take(i + 1));
            if i > 0 {
                lemma_join_snoc(vs.take(i as int), vs[i as int], sep);
            } else {
                assert(vs.take(1) =~= seq![vs[0]]);
            }
        }
        i += 1;
    }
    proof {
        assert(views_of(parts@).take(parts@.len() as int) =~= views_of(parts@));
    }
    r
}

/// Clones an optional string, keeping the contents.
pub fn clone_opt_string(o: &Option<String>) -> (r: Option<String>)
    ensures
        r == *o,
{
    match o {
        Some(s) => Some(s.clone()),
        None => None,
    }
}

/// Clones a vector of strings, keeping the contents.
pub fn clone_strings(v: &Vec<String>) -> (r: Vec<String>)
    ensures
        r@ == v@,
{
    let mut r: Vec<String> = Vec::new();
    let mut i: usize = 0;
    while i < v.len()
        invariant
            i <= v@.len(),
            r@ =~= v@.take(i as int),
        decreases v@.len() - i,
    {
        r.push(v[i].clone());
        i += 1;
    }
    proof {
        assert(v@.take(v@.len() as int) =~= v@);
    }
    r
}

/// The character for one decimal digit.
pub open spec fn digit_char(d: nat) -> char {
    if d == 0 {
        '0'
    } else if d == 1 {
        '1'
    } else if d == 2 {
        '2'
    } else if d == 3 {
        '3'
    } else if d == 4 {
        '4'
    } else if d == 5 {
        '5'
    } else if d == 6 {
        '6'
    } else if d == 7 {
        '7'
    } else if d == 8 {
        '8'
    } else {
        '9'
    }
}

/// The decimal representation of a number, without leading zeroes (a
/// single zero for zero itself).
pub open spec fn dec_str(n: nat) -> Seq<char>
    decreases n,
{
    if n < 10 {
        seq![digit_char(n)]
    } else {
        dec_str(n / 10) + seq![digit_char(n % 10)]
    }
}

/// One decimal digit as a string.
fn digit_string(d: u64) -> (r: String)
    requires
        d < 10,
    ensures
        r@ == seq![digit_char(d as nat)],
{
    let r = if d == 0 {
        "0".to_owned()
    } else if d == 1 {
        "1".to_owned()
    } else if d == 2 {
        "2".to_owned()
    } else if d == 3 {
        "3".to_owned()
    } else if d == 4 {
        "4".to_owned()
    } else if d == 5 {
        "5".to_owned()
    } else if d == 6 {
        "6".to_owned()
    } else if d == 7 {
        "7".to_owned()
    } else if d == 8 {
        "8".to_owned()
    } else {
        "9".to_owned()
    };
    proof {
        reveal_strlit("0");
        reveal_strlit("1");
        reveal_strlit("2");
        reveal_strlit("3");
        reveal_strlit("4");
        reveal_strlit("5");
        reveal_strlit("6");
        reveal_strlit("7");
        reveal_strlit("8");
        reveal_strlit("9");
        assert(r@ =~= seq![digit_char(d as nat)]);
    }
    r
}

/// Writes a number in decimal.
pub fn u64_to_string(n: u64) -> (r: String)
    ensures
        r@ == dec_str(n as nat),
    decreases n,
{
    if n < 10 {
        digit_string(n)
    } else {
        let mut r = u64_to_string(n / 10);
        let d = digit_string(n % 10);
        r.append(d.as_str());
        r
    }
}

} // verus!
