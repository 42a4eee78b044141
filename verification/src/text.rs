//! Text built piece by piece: decimal numbers and joined strings.

use vstd::prelude::*;

use crate::parse;

verus! {

/// The decimal digit `d` as a character.
pub open spec fn digit_char(d: nat) -> char {
    (48 + d) as char
}

/// `n` written in decimal, without leading zeros.
pub open spec fn decimal(n: nat) -> Seq<char>
    decreases n,
{
    if n < 10 {
        seq![digit_char(n)]
    } else {
        decimal(n / 10).push(digit_char(n % 10))
    }
}

fn digit_text(d: u64) -> (r: &'static str)
    requires
        d < 10,
    ensures
        r@ == seq![digit_char(d as nat)],
{
    proof {
        reveal_strlit("0");
        reveal_strlit("1");
        reveal_strlit("2");
        reveal_strlit("3");
        reveal_strlit("4");
        reveal_strlit("5");
        reveal_strlit("6");
        reveal_strlit("7");
        reveal_strlit("8");
        reveal_strlit("9");
    }
    match d {
        0 => "0",
        1 => "1",
        2 => "2",
        3 => "3",
        4 => "4",
        5 => "5",
        6 => "6",
        7 => "7",
        8 => "8",
        _ => "9",
    }
}

/// Writes `n` in decimal.
pub fn decimal_text(n: u64) -> (r: String)
    ensures
        r@ == decimal(n as nat),
    decreases n,
{
    if n < 10 {
        digit_text(n).to_string()
    } else {
        let mut text = decimal_text(n / 10);
        text.append(digit_text(n % 10));
        text
    }
}

/// Joins two pieces of text.
pub fn join2(a: &str, b: &str) -> (r: String)
    ensures
        r@ == a@ + b@,
{
    let mut text = a.to_string();
    text.append(b);
    text
}

/// Joins three pieces of text.
pub fn join3(a: &str, b: &str, c: &str) -> (r: String)
    ensures
        r@ == a@ + b@ + c@,
{
    let mut text = join2(a, b);
    text.append(c);
    text
}

/// Whether `text` holds `part` somewhere.
pub open spec fn has_part(text: Seq<char>, part: Seq<char>) -> bool {
    exists|i: int| part_at(text, part, i)
}

/// Whether `text` holds `part` at `i`.
pub open spec fn part_at(text: Seq<char>, part: Seq<char>, i: int) -> bool {
    0 <= i && i + part.len() <= text.len() && text.subrange(i, i + part.len()) == part
}

/// Whether `text` starts with `head`.
pub open spec fn has_head(text: Seq<char>, head: Seq<char>) -> bool {
    part_at(text, head, 0)
}

/// What the head of a text holds, the text holds.
pub proof fn lemma_head_has_part(text: Seq<char>, head: Seq<char>, part: Seq<char>)
    requires
        has_head(text, head),
        has_part(head, part),
    ensures
        has_part(text, part),
{
    let i = choose|i: int| part_at(head, part, i);
    assert(text.subrange(0, head.len() as int) == head);
    assert(text.subrange(i, i + part.len()) =~= head.subrange(i, i + part.len()));
    assert(part_at(text, part, i));
}

/// `text` with each NUL character written as a backslash and a zero.
pub open spec fn nul_escaped(text: Seq<char>) -> Seq<char>
    decreases text.len(),
{
    if text.len() == 0 {
        Seq::empty()
    } else if text.last() == '\0' {
        nul_escaped(text.drop_last()) + "\\0"@
    } else {
        nul_escaped(text.drop_last()).push(text.last())
    }
}

fn chars_of(text: &str) -> (r: Vec<char>)
    ensures
        r@ == text@,
{
    let mut out: Vec<char> = Vec::new();
    for c in it: text.chars()
        invariant
            it.seq() == text@,
            out@ == text@.take(it.index() as int),
    {
        out.push(c);
    }
    assert(out@ =~= text@);
    out
}

fn chars_at(text: &Vec<char>, part: &Vec<char>, at: usize) -> (r: bool)
    requires
        at + part@.len() <= text@.len(),
    ensures
        r <==> part_at(text@, part@, at as int),
{
    let total = text.len();
    let mut k: usize = 0;
    while k < part.len()
        invariant
            total == text@.len(),
            k <= part@.len(),
            at + part@.len() <= text@.len(),
            forall|j: int| 0 <= j < k ==> text@[at + j] == part@[j],
        decreases part@.len() - k,
    {
        if text[at + k] != part[k] {
            assert(text@.subrange(at as int, at + part@.len())[k as int] != part@[k as int]);
            return false;
        }
        k = k + 1;
    }
    assert(text@.subrange(at as int, at + part@.len()) =~= part@);
    true
}

/// Returns whether `text` holds `part` somewhere.
pub fn contains(text: &str, part: &str) -> (r: bool)
    ensures
        r <==> has_part(text@, part@),
{
    let text_chars = chars_of(text);
    let part_chars = chars_of(part);
    if part_chars.len() > text_chars.len() {
        return false;
    }
    let last: usize = text_chars.len() - part_chars.len();
    let mut i: usize = 0;
    while i <= last
        invariant
            text_chars@ == text@,
            part_chars@ == part@,
            last == text@.len() - part@.len(),
            i <= last + 1,
            forall|j: int| 0 <= j < i ==> !part_at(text@, part@, j),
        decreases last + 1 - i,
    {
        if chars_at(&text_chars, &part_chars, i) {
            return true;
        }
        if i == last {
            return false;
        }
        i = i + 1;
    }
    false
}

/// Returns whether `text` starts with `head`.
pub fn starts_with(text: &str, head: &str) -> (r: bool)
    ensures
        r <==> has_head(text@, head@),
{
    let text_chars = chars_of(text);
    let head_chars = chars_of(head);
    head_chars.len() <= text_chars.len() && chars_at(&text_chars, &head_chars, 0)
}

proof fn lemma_plain_stretch(text: Seq<char>, start: int, end: int)
    requires
        0 <= start <= end <= text.len(),
        forall|k: int| start <= k < end ==> text[k] != '\0',
    ensures
        nul_escaped(text.take(end)) == nul_escaped(text.take(start)) + text.subrange(start, end),
    decreases end - start,
{
    if start < end {
        lemma_plain_stretch(text, start, end - 1);
        assert(text.take(end).drop_last() =~= text.take(end - 1));
        assert(text.subrange(start, end) =~= text.subrange(start, end - 1).push(text[end - 1]));
    } else {
        assert(text.subrange(start, end) =~= Seq::empty());
    }
}

/// Writes each NUL character of `text` as a backslash and a zero.
pub fn escape_nul(text: &str) -> (r: String)
    ensures
        r@ == nul_escaped(text@),
{
    let chars = chars_of(text);
    let len = chars.len();
    let mut out = String::new();
    let mut start: usize = 0;
    let mut i: usize = 0;
    assert(out@ =~= nul_escaped(text@.take(0)));
    while i < len
        invariant
            chars@ == text@,
            len == text@.len(),
            start <= i <= len,
            out@ == nul_escaped(text@.take(start as int)),
            forall|k: int| start <= k < i ==> text@[k] != '\0',
        decreases len - i,
    {
        if chars[i] == '\0' {
            proof {
                lemma_plain_stretch(text@, start as int, i as int);
                assert(text@.take(i + 1).drop_last() =~= text@.take(i as int));
            }
            out.append(text.substring_char(start, i));
            out.append("\\0");
            start = i + 1;
        }
        i = i + 1;
    }
    proof {
        lemma_plain_stretch(text@, start as int, len as int);
        assert(text@.take(len as int) =~= text@);
    }
    out.append(text.substring_char(start, len));
    out
}

proof fn lemma_no_nul_left(text: Seq<char>)
    ensures
        forall|k: int| 0 <= k < nul_escaped(text).len() ==> nul_escaped(text)[k] != '\0',
    decreases text.len(),
{
    if text.len() > 0 {
        lemma_no_nul_left(text.drop_last());
        reveal_strlit("\\0");
        let escape = "\\0"@;
        assert(escape.len() == 2 && escape[0] != '\0' && escape[1] != '\0');
        let before = nul_escaped(text.drop_last());
        assert forall|k: int| 0 <= k < nul_escaped(text).len() implies nul_escaped(text)[k]
            != '\0' by {
            if k < before.len() {
                assert(nul_escaped(text)[k] == before[k]);
            } else if text.last() == '\0' {
                assert(nul_escaped(text)[k] == escape[k - before.len()]);
            }
        }
    }
}

/// An escaped text holds no NUL character, so it can end in one.
pub proof fn escaped_text_holds_no_nul(text: Seq<char>, k: int)
    requires
        0 <= k < nul_escaped(text).len(),
    ensures
        nul_escaped(text)[k] != '\0',
{
    lemma_no_nul_left(text);
}

/// A text holds a part exactly if it is what stands before the part, the part, and what
/// stands behind it.
pub proof fn parts_are_found_wherever_they_stand(
    before: Seq<char>,
    part: Seq<char>,
    behind: Seq<char>,
    text: Seq<char>,
)
    ensures
        has_part(before + part + behind, part),
        has_part(text, part) ==> exists|a: Seq<char>, b: Seq<char>| text == #[trigger] (a + part
            + b),
        has_head(part + behind, part),
        has_head(text, part) ==> text == part + text.skip(part.len() as int),
{
    let all = before + part + behind;
    assert(all.subrange(before.len() as int, (before.len() + part.len()) as int) =~= part);
    assert(part_at(all, part, before.len() as int));
    if has_part(text, part) {
        let i = choose|i: int| part_at(text, part, i);
        let a = text.take(i);
        let b = text.skip(i + part.len());
        assert(text =~= a + part + b);
    }
    assert((part + behind).subrange(0, part.len() as int) =~= part);
    if has_head(text, part) {
        assert(text =~= text.subrange(0, part.len() as int) + text.skip(part.len() as int));
    }
}

/// Escaping goes character by character: a NUL becomes a backslash and a zero, and any
/// other character stays.
pub proof fn escaping_goes_character_by_character(a: Seq<char>, b: Seq<char>, c: char)
    ensures
        nul_escaped(a + b) == nul_escaped(a) + nul_escaped(b),
        c != '\0' ==> nul_escaped(seq![c]) == seq![c],
        nul_escaped(seq!['\0']) == seq!['\\', '0'],
        (forall|i: int| 0 <= i < a.len() ==> a[i] != '\0') ==> nul_escaped(a) == a,
    decreases b.len(),
{
    reveal_with_fuel(nul_escaped, 2);
    reveal_strlit("\\0");
    assert(seq![c].drop_last() =~= Seq::empty());
    assert(seq!['\0'].drop_last() =~= Seq::empty());
    assert(nul_escaped(seq!['\0']) =~= seq!['\\', '0']);
    if c != '\0' {
        assert(nul_escaped(seq![c]) =~= seq![c]);
    }
    if forall|i: int| 0 <= i < a.len() ==> a[i] != '\0' {
        lemma_plain_stretch(a, 0, a.len() as int);
        assert(a.take(a.len() as int) =~= a);
        assert(a.take(0) =~= Seq::empty());
        assert(a.subrange(0, a.len() as int) =~= a);
        assert(nul_escaped(a) =~= a);
    }
    if b.len() == 0 {
        assert(a + b =~= a);
        assert(nul_escaped(a) + nul_escaped(b) =~= nul_escaped(a));
    } else {
        assert((a + b).drop_last() =~= a + b.drop_last());
        escaping_goes_character_by_character(a, b.drop_last(), c);
        assert(nul_escaped(a + b) =~= nul_escaped(a) + nul_escaped(b));
    }
}

/// A number written in decimal reads back as itself, and does not start with a zero
/// unless it is zero.
pub proof fn decimals_read_back(n: nat)
    ensures
        parse::digits_value(decimal(n), 10) == n,
        forall|i: int| 0 <= i < decimal(n).len() ==> '0' <= #[trigger] decimal(n)[i] <= '9',
        decimal(n).len() > 0,
        n > 0 ==> decimal(n)[0] != '0',
    decreases n,
{
    reveal_with_fuel(parse::digits_value, 2);
    if n >= 10 {
        decimals_read_back(n / 10);
        assert(decimal(n).drop_last() =~= decimal(n / 10));
        assert forall|i: int| 0 <= i < decimal(n).len() implies '0' <= #[trigger] decimal(n)[i]
            <= '9' by {
            if i < decimal(n / 10).len() {
                assert(decimal(n)[i] == decimal(n / 10)[i]);
            }
        }
        assert(decimal(n)[0] == decimal(n / 10)[0]);
    } else {
        assert(decimal(n).drop_last() =~= Seq::empty());
    }
}

} // verus!
