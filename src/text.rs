//! Character classes, decimal integers, ASCII case folding and tab expansion.
use vstd::prelude::*;

verus! {

/// Width of a tab stop used when expanding tabs.
pub const TAB_WIDTH: usize = 8;

pub open spec fn is_digit(c: char) -> bool {
    '0' <= c && c <= '9'
}

pub open spec fn is_upper(c: char) -> bool {
    'A' <= c && c <= 'Z'
}

pub open spec fn digit_value(c: char) -> int {
    c as int - '0' as int
}

/// Non-empty and made of decimal digits only.
pub open spec fn all_digits(t: Seq<char>) -> bool {
    t.len() > 0 && forall|i: int| 0 <= i < t.len() ==> is_digit(#[trigger] t[i])
}

/// The value of a run of decimal digits, most significant first.
pub open spec fn digits_value(t: Seq<char>) -> int
    decreases t.len(),
{
    if t.len() == 0 {
        0
    } else {
        10 * digits_value(t.drop_last()) + digit_value(t.last())
    }
}

/// The integer written as an optional sign followed by decimal digits.
pub open spec fn int_value(t: Seq<char>) -> Option<int> {
    if t.len() > 0 && (t[0] == '-' || t[0] == '+') {
        if all_digits(t.drop_first()) {
            if t[0] == '-' {
                Some(-digits_value(t.drop_first()))
            } else {
                Some(digits_value(t.drop_first()))
            }
        } else {
            None
        }
    } else if all_digits(t) {
        Some(digits_value(t))
    } else {
        None
    }
}

/// The text read as a signed 32-bit integer; `None` when it is not one or does not fit.
pub open spec fn i32_value(t: Seq<char>) -> Option<i32> {
    match int_value(t) {
        Some(v) => if i32::MIN <= v <= i32::MAX {
            Some(v as i32)
        } else {
            None
        },
        None => None,
    }
}

/// Two characters equal up to ASCII case.
pub open spec fn char_eq_ignore_case(a: char, b: char) -> bool {
    a == b || (is_upper(a) && a as u32 + 32 == b as u32) || (is_upper(b) && b as u32 + 32
        == a as u32)
}

/// Two texts equal up to ASCII case.
pub open spec fn eq_ignore_case(a: Seq<char>, b: Seq<char>) -> bool {
    a.len() == b.len() && forall|i: int| 0 <= i < a.len() ==> char_eq_ignore_case(#[trigger] a[i], b[i])
}

proof fn lemma_digits_value_nonneg(t: Seq<char>)
    requires
        forall|i: int| 0 <= i < t.len() ==> is_digit(#[trigger] t[i]),
    ensures
        digits_value(t) >= 0,
    decreases t.len(),
{
    if t.len() > 0 {
        lemma_digits_value_nonneg(t.drop_last());
    }
}

#[verifier::loop_isolation(false)]
/// Reads `s[lo..hi]` as a signed 32-bit integer: optional `+` or `-`, then decimal digits.
pub fn parse_i32(s: &[char], lo: usize, hi: usize) -> (r: Option<i32>)
    requires
        lo <= hi <= s@.len(),
    ensures
        r == i32_value(s@.subrange(lo as int, hi as int)),
{
    let ghost t = s@.subrange(lo as int, hi as int);
    if lo == hi {
        return None;
    }
    let neg = s[lo] == '-';
    let start: usize = if s[lo] == '-' || s[lo] == '+' { lo + 1 } else { lo };
    if start == hi {
        return None;
    }
    let ghost d = s@.subrange(start as int, hi as int);
    proof {
        if start == lo + 1 {
            assert(d =~= t.drop_first());
        } else {
            assert(d =~= t);
        }
    }
    // `acc` saturates just above the largest magnitude an `i32` can take.
    let bound: i64 = 2147483648;
    let mut acc: i64 = 0;
    let mut big = false;
    let mut i = start;
    while i < hi
        invariant
            lo < start <= i <= hi || (lo == start && start <= i <= hi),
            start < hi,
            hi <= s@.len(),
            bound == 2147483648,
            forall|j: int| start <= j < i ==> is_digit(#[trigger] s@[j]),
            !big ==> 0 <= acc <= bound && acc == digits_value(s@.subrange(start as int, i as int)),
            big ==> digits_value(s@.subrange(start as int, i as int)) > bound,
        decreases hi - i,
    {
        let c = s[i];
        if !('0' <= c && c <= '9') {
            assert(d[i - start] == c);
            assert(!all_digits(d));
            return None;
        }
        let ghost prev = s@.subrange(start as int, i as int);
        let ghost next = s@.subrange(start as int, i + 1);
        assert(next.drop_last() =~= prev);
        let dv = (c as u32 - '0' as u32) as i64;
        if !big {
            if acc * 10 + dv > bound {
                big = true;
            } else {
                acc = acc * 10 + dv;
            }
        } else {
            proof {
                lemma_digits_value_nonneg(prev);
                assert(digits_value(next) == 10 * digits_value(prev) + dv);
            }
        }
        i = i + 1;
    }
    assert(s@.subrange(start as int, i as int) =~= d);
    assert(all_digits(d));
    if big {
        None
    } else if neg {
        Some((0 - acc) as i32)
    } else if acc == bound {
        None
    } else {
        Some(acc as i32)
    }
}

/// `n` spaces.
pub open spec fn spaces(n: int) -> Seq<char> {
    Seq::new(n as nat, |_i: int| ' ')
}

/// Expands each tab of `t` to the next multiple of `TAB_WIDTH` columns, where
/// `col` is the current column modulo `TAB_WIDTH`; a newline restarts the count.
pub open spec fn expand_tabs_from(t: Seq<char>, col: int) -> Seq<char>
    decreases t.len(),
{
    if t.len() == 0 {
        Seq::empty()
    } else if t[0] == '\t' {
        spaces(TAB_WIDTH - col) + expand_tabs_from(t.drop_first(), 0)
    } else if t[0] == '\n' {
        seq!['\n'] + expand_tabs_from(t.drop_first(), 0)
    } else {
        seq![t[0]] + expand_tabs_from(t.drop_first(), (col + 1) % (TAB_WIDTH as int))
    }
}

/// The text with its tabs expanded, starting at the first column.
pub open spec fn expand_tabs(t: Seq<char>) -> Seq<char> {
    expand_tabs_from(t, 0)
}

pub open spec fn has_no_tab(t: Seq<char>) -> bool {
    forall|i: int| 0 <= i < t.len() ==> #[trigger] t[i] != '\t'
}

proof fn lemma_expand_has_no_tab(t: Seq<char>, col: int)
    requires
        0 <= col < TAB_WIDTH,
    ensures
        has_no_tab(expand_tabs_from(t, col)),
    decreases t.len(),
{
    if t.len() > 0 {
        let next = if t[0] == '\t' || t[0] == '\n' { 0 } else { (col + 1) % (TAB_WIDTH as int) };
        lemma_expand_has_no_tab(t.drop_first(), next);
        let rest = expand_tabs_from(t.drop_first(), next);
        let head = if t[0] == '\t' { spaces(TAB_WIDTH - col) } else { seq![t[0]] };
        assert(expand_tabs_from(t, col) == head + rest);
        assert forall|i: int| 0 <= i < (head + rest).len() implies #[trigger] (head + rest)[i]
            != '\t' by {
            if i >= head.len() {
                assert((head + rest)[i] == rest[i - head.len()]);
            }
        }
    }
}

proof fn lemma_expand_without_tabs(t: Seq<char>, col: int)
    requires
        0 <= col < TAB_WIDTH,
        has_no_tab(t),
    ensures
        expand_tabs_from(t, col) == t,
    decreases t.len(),
{
    if t.len() > 0 {
        let next = if t[0] == '\n' { 0 } else { (col + 1) % (TAB_WIDTH as int) };
        assert(has_no_tab(t.drop_first()) && t[0] != '\t');
        lemma_expand_without_tabs(t.drop_first(), next);
        assert(seq![t[0]] + t.drop_first() =~= t);
    }
}

/// Tab expansion leaves no tab behind, so a second pass changes nothing.
pub proof fn lemma_expand_tabs_idempotent(t: Seq<char>)
    ensures
        expand_tabs(expand_tabs(t)) == expand_tabs(t),
{
    lemma_expand_has_no_tab(t, 0);
    lemma_expand_without_tabs(expand_tabs(t), 0);
}

/// Relies on `String::push`: appends the character to the end of the string.
#[verifier::external_body]
pub(crate) fn push_char(s: &mut String, c: char)
    ensures
        final(s)@ == old(s)@.push(c),
{
    s.push(c);
}

/// The characters of a string, in order.
pub fn chars_of(s: &str) -> (r: Vec<char>)
    ensures
        r@ == s@,
{
    let mut r: Vec<char> = Vec::new();
    for c in it: s.chars()
        invariant
            it.seq() == s@,
            r@ == it.seq().take(it.index() as int),
    {
        proof {
            assert(it.seq().take(it.index() + 1) =~= r@.push(c));
        }
        r.push(c);
    }
    assert(r@ =~= s@);
    r
}

/// A string holding `s[lo..hi]`.
pub fn string_of(s: &[char], lo: usize, hi: usize) -> (r: String)
    requires
        lo <= hi <= s@.len(),
    ensures
        r@ == s@.subrange(lo as int, hi as int),
{
    let mut r = String::new();
    let mut i = lo;
    while i < hi
        invariant
            lo <= i <= hi <= s@.len(),
            r@ == s@.subrange(lo as int, i as int),
        decreases hi - i,
    {
        push_char(&mut r, s[i]);
        assert(r@ =~= s@.subrange(lo as int, i + 1));
        i = i + 1;
    }
    r
}

/// The characters of `input` with each tab expanded to the next tab stop.
pub fn expand_tab_chars(input: &str) -> (r: Vec<char>)
    ensures
        r@ == expand_tabs(input@),
{
    let t = chars_of(input);
    let mut r: Vec<char> = Vec::new();
    let mut col: usize = 0;
    let mut i: usize = 0;
    assert(t@.subrange(0, t@.len() as int) =~= input@);
    assert(r@ + expand_tabs(input@) =~= expand_tabs(input@));
    while i < t.len()
        invariant
            t@ == input@,
            i <= t@.len(),
            col < TAB_WIDTH,
            r@ + expand_tabs_from(t@.subrange(i as int, t@.len() as int), col as int)
                == expand_tabs(input@),
        decreases t.len() - i,
    {
        let ghost rest = t@.subrange(i as int, t@.len() as int);
        let ghost r0 = r@;
        let ghost c0 = col as int;
        assert(rest.drop_first() =~= t@.subrange(i + 1, t@.len() as int));
        let c = t[i];
        if c == '\t' {
            let mut k = col;
            while k < TAB_WIDTH
                invariant
                    col <= k <= TAB_WIDTH,
                    r@ == r0 + spaces(k - col),
                decreases TAB_WIDTH - k,
            {
                r.push(' ');
                assert(r@ =~= r0 + spaces(k + 1 - col));
                k = k + 1;
            }
            col = 0;
        } else {
            r.push(c);
            assert(r@ =~= r0 + seq![c]);
            col = if c == '\n' { 0 } else { (col + 1) % TAB_WIDTH };
        }
        proof {
            let tail = expand_tabs_from(rest.drop_first(), col as int);
            assert(expand_tabs_from(rest, c0) == r@.subrange(r0.len() as int, r@.len() as int) + tail);
            assert(r0 + expand_tabs_from(rest, c0) =~= r@ + tail);
        }
        i = i + 1;
    }
    assert(t@.subrange(i as int, t@.len() as int) =~= Seq::<char>::empty());
    assert(r@ + Seq::<char>::empty() =~= r@);
    r
}

/// The source text with each tab expanded to the next multiple of `TAB_WIDTH` columns,
/// counted from the start of its line.
pub fn tabs_to_spaces(input: &str) -> (r: String)
    ensures
        r@ == expand_tabs(input@),
{
    let v = expand_tab_chars(input);
    string_of(v.as_slice(), 0, v.len())
}

} // verus!
