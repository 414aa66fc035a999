//! Text helpers: prefixes, the plain-text reply fallback, left trimming,
//! comparison and copies.
use vstd::prelude::*;

verus! {

/// `s` begins with `p`.
pub open spec fn starts_with(s: Seq<char>, p: Seq<char>) -> bool {
    p.len() <= s.len() && s.subrange(0, p.len() as int) =~= p
}

/// The marker that opens a quoted line of a reply fallback.
pub open spec fn quote_marker() -> Seq<char> {
    seq!['>', ' ']
}

/// The text left once the leading quoted lines of a reply fallback are gone:
/// while the text starts with `> `, its first line (with its line break) is
/// dropped, and nothing is left when a quoted line has no line break.
pub open spec fn without_reply_fallback(s: Seq<char>) -> Seq<char>
    decreases s.len(),
{
    if starts_with(s, quote_marker()) {
        rest_of_quoted_line(s.drop_first())
    } else {
        s
    }
}

/// What follows the rest of a quoted line, the fallback removal carrying on there.
pub open spec fn rest_of_quoted_line(s: Seq<char>) -> Seq<char>
    decreases s.len(),
{
    if s.len() == 0 {
        Seq::empty()
    } else if s[0] == '\n' {
        without_reply_fallback(s.drop_first())
    } else {
        rest_of_quoted_line(s.drop_first())
    }
}

/// Unicode's `White_Space` property.
pub open spec fn is_white_space(c: char) -> bool {
    let u = c as u32;
    (0x9 <= u && u <= 0xD) || u == 0x20 || u == 0x85 || u == 0xA0 || u == 0x1680 || (0x2000
        <= u && u <= 0x200A) || u == 0x2028 || u == 0x2029 || u == 0x202F || u == 0x205F || u
        == 0x3000
}

/// `s` without its leading white space.
pub open spec fn trimmed_start(s: Seq<char>) -> Seq<char>
    decreases s.len(),
{
    if s.len() > 0 && is_white_space(s[0]) {
        trimmed_start(s.drop_first())
    } else {
        s
    }
}

/// After the reply fallback is removed, the text never opens with a quoted line.
pub proof fn lemma_no_quoted_line_left(s: Seq<char>)
    ensures
        !starts_with(without_reply_fallback(s), quote_marker()),
    decreases s.len(), 1int,
{
    if starts_with(s, quote_marker()) {
        lemma_no_quoted_line_left_in_rest(s.drop_first());
    }
}

/// The same, for the removal carried on inside a quoted line.
pub proof fn lemma_no_quoted_line_left_in_rest(s: Seq<char>)
    ensures
        !starts_with(rest_of_quoted_line(s), quote_marker()),
    decreases s.len(), 0int,
{
    if s.len() > 0 {
        if s[0] == '\n' {
            lemma_no_quoted_line_left(s.drop_first());
        } else {
            lemma_no_quoted_line_left_in_rest(s.drop_first());
        }
    }
}

/// The empty line that closes a reply fallback is white space: dropping it too
/// changes nothing once the text is left-trimmed.
pub proof fn lemma_closing_blank_line_trimmed(s: Seq<char>)
    requires
        without_reply_fallback(s).len() > 0,
        without_reply_fallback(s)[0] == '\n',
    ensures
        trimmed_start(without_reply_fallback(s)) == trimmed_start(
            without_reply_fallback(s).drop_first(),
        ),
{
}

/// Relies on ruma's `remove_plain_reply_fallback`: while the text starts with
/// `> `, its first line is dropped, and the empty string is returned when such a
/// line has no line break.
#[verifier::external_body]
pub(crate) fn remove_plain_reply_fallback(s: &str) -> (r: String)
    ensures
        r@ == without_reply_fallback(s@),
{
    ruma::events::room::message::sanitize::remove_plain_reply_fallback(s).to_string()
}

/// Whether `c` has Unicode's `White_Space` property.
pub fn is_white_space_char(c: char) -> (r: bool)
    ensures
        r == is_white_space(c),
{
    let u = c as u32;
    (0x9 <= u && u <= 0xD) || u == 0x20 || u == 0x85 || u == 0xA0 || u == 0x1680 || (0x2000 <= u
        && u <= 0x200A) || u == 0x2028 || u == 0x2029 || u == 0x202F || u == 0x205F || u == 0x3000
}

/// `s` without its leading white space.
pub fn trim_start(s: &str) -> (r: String)
    ensures
        r@ == trimmed_start(s@),
{
    let n = s.unicode_len();
    let mut i: usize = 0;
    proof {
        assert(s@.subrange(0, n as int) =~= s@);
    }
    while i < n && is_white_space_char(s.get_char(i))
        invariant
            n == s@.len(),
            0 <= i <= n,
            trimmed_start(s@) == trimmed_start(s@.subrange(i as int, n as int)),
        decreases n - i,
    {
        proof {
            assert(s@.subrange(i as int, n as int).drop_first() =~= s@.subrange(i + 1, n as int));
        }
        i = i + 1;
    }
    String::from_str(s.substring_char(i, n))
}

/// A copy of `o`.
pub fn clone_opt(o: &Option<String>) -> (r: Option<String>)
    ensures
        r == *o,
{
    match o {
        Some(s) => Some(s.clone()),
        None => None,
    }
}

/// Whether `a` and `b` hold the same characters.
pub fn str_eq(a: &str, b: &str) -> (r: bool)
    ensures
        r == (a@ == b@),
{
    let n = a.unicode_len();
    if n != b.unicode_len() {
        return false;
    }
    let mut i: usize = 0;
    while i < n
        invariant
            n == a@.len(),
            n == b@.len(),
            0 <= i <= n,
            forall|j: int| 0 <= j < i ==> a@[j] == b@[j],
        decreases n - i,
    {
        if a.get_char(i) != b.get_char(i) {
            return false;
        }
        i = i + 1;
    }
    assert(a@ =~= b@);
    true
}

/// `a` comes strictly before `b` in code-point order, which is also the order
/// of their UTF-8 bytes.
pub open spec fn text_lt(a: Seq<char>, b: Seq<char>) -> bool
    decreases a.len(),
{
    if b.len() == 0 {
        false
    } else if a.len() == 0 {
        true
    } else if a[0] != b[0] {
        (a[0] as int) < (b[0] as int)
    } else {
        text_lt(a.drop_first(), b.drop_first())
    }
}

/// No text comes before itself.
pub proof fn lemma_text_lt_irreflexive(a: Seq<char>)
    ensures
        !text_lt(a, a),
    decreases a.len(),
{
    if a.len() > 0 {
        lemma_text_lt_irreflexive(a.drop_first());
    }
}

/// The order is transitive.
pub proof fn lemma_text_lt_transitive(a: Seq<char>, b: Seq<char>, c: Seq<char>)
    requires
        text_lt(a, b),
        text_lt(b, c),
    ensures
        text_lt(a, c),
    decreases a.len(),
{
    if a.len() > 0 && a[0] == b[0] && b[0] == c[0] {
        lemma_text_lt_transitive(a.drop_first(), b.drop_first(), c.drop_first());
    }
}

/// Of two different texts, one comes before the other.
pub proof fn lemma_text_lt_total(a: Seq<char>, b: Seq<char>)
    requires
        a != b,
        !text_lt(a, b),
    ensures
        text_lt(b, a),
    decreases a.len(),
{
    if a.len() == 0 {
        assert(b.len() == 0);
        assert(a =~= b);
    } else if b.len() > 0 && a[0] == b[0] {
        if a.drop_first() == b.drop_first() {
            assert(a =~= seq![a[0]] + a.drop_first());
            assert(b =~= seq![b[0]] + b.drop_first());
        }
        lemma_text_lt_total(a.drop_first(), b.drop_first());
    }
}

/// Whether `a` comes strictly before `b` in code-point order.
pub fn str_lt(a: &str, b: &str) -> (r: bool)
    ensures
        r == text_lt(a@, b@),
{
    let n = a.unicode_len();
    let m = b.unicode_len();
    let mut i: usize = 0;
    proof {
        assert(a@.subrange(0, n as int) =~= a@);
        assert(b@.subrange(0, m as int) =~= b@);
    }
    while i < n && i < m
        invariant
            n == a@.len(),
            m == b@.len(),
            0 <= i <= n,
            i <= m,
            text_lt(a@, b@) == text_lt(a@.subrange(i as int, n as int), b@.subrange(i as int, m as int)),
        decreases n - i,
    {
        let x = a.get_char(i);
        let y = b.get_char(i);
        if x != y {
            return (x as u32) < (y as u32);
        }
        proof {
            assert(a@.subrange(i as int, n as int).drop_first() =~= a@.subrange(i + 1, n as int));
            assert(b@.subrange(i as int, m as int).drop_first() =~= b@.subrange(i + 1, m as int));
        }
        i = i + 1;
    }
    i < m
}

} // verus!
