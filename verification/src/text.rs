//! Text: numbers in decimal, joining, ASCII case, and white space.
use vstd::prelude::*;
use vstd::string::*;

verus! {

/// The character for one decimal digit.
pub open spec fn digit_char(d: int) -> char {
    (48 + d) as char
}

/// A number in decimal, without leading zeros.
pub open spec fn decimal_text(n: nat) -> Seq<char>
    decreases n,
{
    if n < 10 {
        seq![digit_char(n as int)]
    } else {
        decimal_text(n / 10).push(digit_char((n % 10) as int))
    }
}

fn digit_str(d: u8) -> (r: &'static str)
    requires
        d < 10,
    ensures
        r@ == seq![digit_char(d as int)],
{
    proof {
        reveal_strlit("0");
        reveal_strlit("1");
        reveal_strlit("2");
        reveal_strlit("3");
        reveal_strlit("4");
        reveal_strlit("5");
        reveal_strlit("6");
        reveal_strlit("7");
        reveal_strlit("8");
        reveal_strlit("9");
    }
    let r = match d {
        0 => "0",
        1 => "1",
        2 => "2",
        3 => "3",
        4 => "4",
        5 => "5",
        6 => "6",
        7 => "7",
        8 => "8",
        _ => "9",
    };
    assert(r@ =~= seq![digit_char(d as int)]);
    r
}

/// The number in decimal.
pub fn decimal(n: u64) -> (r: String)
    ensures
        r@ == decimal_text(n as nat),
    decreases n,
{
    let mut out: String = if n < 10 {
        String::new()
    } else {
        decimal(n / 10)
    };
    out.append(digit_str((n % 10) as u8));
    assert(out@ =~= decimal_text(n as nat));
    out
}

/// `a` followed by `b`.
pub fn joined(a: &str, b: &str) -> (r: String)
    ensures
        r@ == a@ + b@,
{
    let mut out: String = a.to_owned();
    out.append(b);
    out
}

/// The lower-case form of an ASCII capital, any other character as it is.
pub open spec fn ascii_lower(c: char) -> char {
    if 'A' <= c && c <= 'Z' {
        (c as int + 32) as char
    } else {
        c
    }
}

/// Whether two texts are equal but for the case of ASCII letters.
pub open spec fn same_ignoring_case(a: Seq<char>, b: Seq<char>) -> bool {
    &&& a.len() == b.len()
    &&& forall|i: int| 0 <= i < a.len() ==> ascii_lower(#[trigger] a[i]) == ascii_lower(b[i])
}

fn lower(c: char) -> (r: char)
    ensures
        r == ascii_lower(c),
{
    match c {
        'A' => 'a',
        'B' => 'b',
        'C' => 'c',
        'D' => 'd',
        'E' => 'e',
        'F' => 'f',
        'G' => 'g',
        'H' => 'h',
        'I' => 'i',
        'J' => 'j',
        'K' => 'k',
        'L' => 'l',
        'M' => 'm',
        'N' => 'n',
        'O' => 'o',
        'P' => 'p',
        'Q' => 'q',
        'R' => 'r',
        'S' => 's',
        'T' => 't',
        'U' => 'u',
        'V' => 'v',
        'W' => 'w',
        'X' => 'x',
        'Y' => 'y',
        'Z' => 'z',
        _ => c,
    }
}

/// Whether two texts are equal but for the case of ASCII letters.
pub fn eq_ignore_ascii_case(a: &str, b: &str) -> (r: bool)
    ensures
        r == same_ignoring_case(a@, b@),
{
    let n: usize = a.unicode_len();
    if n != b.unicode_len() {
        return false;
    }
    let mut i: usize = 0;
    while i < n
        invariant
            n == a@.len(),
            n == b@.len(),
            i <= n,
            forall|k: int| 0 <= k < i ==> ascii_lower(#[trigger] a@[k]) == ascii_lower(b@[k]),
        decreases n - i,
    {
        if lower(a.get_char(i)) != lower(b.get_char(i)) {
            return false;
        }
        i = i + 1;
    }
    true
}

/// Whether two texts are the same.
pub fn same_text(a: &str, b: &str) -> (r: bool)
    ensures
        r == (a@ == b@),
{
    let n: usize = a.unicode_len();
    if n != b.unicode_len() {
        return false;
    }
    let mut i: usize = 0;
    while i < n
        invariant
            n == a@.len(),
            n == b@.len(),
            i <= n,
            forall|k: int| 0 <= k < i ==> a@[k] == b@[k],
        decreases n - i,
    {
        if a.get_char(i) != b.get_char(i) {
            return false;
        }
        i = i + 1;
    }
    assert(a@ =~= b@);
    true
}

/// Whether `text` begins with `prefix`.
pub open spec fn begins_with(text: Seq<char>, prefix: Seq<char>) -> bool {
    text.len() >= prefix.len() && text.subrange(0, prefix.len() as int) == prefix
}

/// Whether `text` begins with `prefix`.
pub fn starts_with(text: &str, prefix: &str) -> (r: bool)
    ensures
        r == begins_with(text@, prefix@),
{
    let n: usize = prefix.unicode_len();
    if text.unicode_len() < n {
        return false;
    }
    let mut i: usize = 0;
    while i < n
        invariant
            n == prefix@.len(),
            n <= text@.len(),
            i <= n,
            forall|k: int| 0 <= k < i ==> text@[k] == prefix@[k],
        decreases n - i,
    {
        if text.get_char(i) != prefix.get_char(i) {
            assert(text@.subrange(0, n as int)[i as int] != prefix@[i as int]);
            return false;
        }
        i = i + 1;
    }
    assert(text@.subrange(0, n as int) =~= prefix@);
    true
}

/// Whether a character is white space: one of Unicode's `White_Space`.
pub open spec fn white_space(c: char) -> bool {
    let v = c as u32;
    ||| 0x9 <= v <= 0xD
    ||| v == 0x20
    ||| v == 0x85
    ||| v == 0xA0
    ||| v == 0x1680
    ||| 0x2000 <= v <= 0x200A
    ||| v == 0x2028
    ||| v == 0x2029
    ||| v == 0x202F
    ||| v == 0x205F
    ||| v == 0x3000
}

fn is_white_space(c: char) -> (r: bool)
    ensures
        r == white_space(c),
{
    let v: u32 = c as u32;
    (0x9 <= v && v <= 0xD) || v == 0x20 || v == 0x85 || v == 0xA0 || v == 0x1680 || (0x2000 <= v
        && v <= 0x200A) || v == 0x2028 || v == 0x2029 || v == 0x202F || v == 0x205F || v == 0x3000
}

/// A text without the white space at either end.
pub open spec fn trimmed_text(text: Seq<char>) -> Seq<char>
    decreases text.len(),
{
    if text.len() == 0 {
        text
    } else if white_space(text.first()) {
        trimmed_text(text.drop_first())
    } else if white_space(text.last()) {
        trimmed_text(text.drop_last())
    } else {
        text
    }
}

/// The text without the white space at either end.
pub fn trimmed(text: &str) -> (r: String)
    ensures
        r@ == trimmed_text(text@),
{
    let n: usize = text.unicode_len();
    let mut start: usize = 0;
    assert(text@.subrange(0, n as int) =~= text@);
    while start < n && is_white_space(text.get_char(start))
        invariant
            n == text@.len(),
            start <= n,
            trimmed_text(text@) == trimmed_text(text@.subrange(start as int, n as int)),
        decreases n - start,
    {
        proof {
            let rest = text@.subrange(start as int, n as int);
            assert(rest.drop_first() =~= text@.subrange(start + 1, n as int));
        }
        start = start + 1;
    }
    let mut end: usize = n;
    while end > start && is_white_space(text.get_char(end - 1))
        invariant
            n == text@.len(),
            start <= end <= n,
            start < end ==> !white_space(text@[start as int]),
            trimmed_text(text@) == trimmed_text(text@.subrange(start as int, end as int)),
        decreases end,
    {
        proof {
            let rest = text@.subrange(start as int, end as int);
            assert(rest.first() == text@[start as int]);
            assert(rest.last() == text@[end - 1]);
            assert(rest.drop_last() =~= text@.subrange(start as int, end - 1));
        }
        end = end - 1;
    }
    proof {
        let rest = text@.subrange(start as int, end as int);
        if start < end {
            assert(rest.first() == text@[start as int]);
            assert(rest.last() == text@[end - 1]);
        }
    }
    text.substring_char(start, end).to_owned()
}

/// Nothing is left of a text exactly where it is all white space; what is left
/// begins and ends with something else.
pub proof fn law_trimmed_text_has_solid_ends(text: Seq<char>)
    ensures
        trimmed_text(text).len() == 0 <==> (forall|i: int|
            0 <= i < text.len() ==> white_space(#[trigger] text[i])),
        trimmed_text(text).len() > 0 ==> !white_space(trimmed_text(text).first())
            && !white_space(trimmed_text(text).last()),
    decreases text.len(),
{
    if text.len() > 0 {
        if white_space(text.first()) {
            let rest = text.drop_first();
            law_trimmed_text_has_solid_ends(rest);
            if forall|i: int| 0 <= i < rest.len() ==> white_space(#[trigger] rest[i]) {
                assert forall|i: int| 0 <= i < text.len() implies white_space(
                    #[trigger] text[i],
                ) by {
                    if i > 0 {
                        assert(text[i] == rest[i - 1]);
                    }
                }
            } else {
                let k = choose|k: int| 0 <= k < rest.len() && !white_space(#[trigger] rest[k]);
                assert(text[k + 1] == rest[k]);
            }
        } else if white_space(text.last()) {
            let rest = text.drop_last();
            law_trimmed_text_has_solid_ends(rest);
            assert(!white_space(text[0]));
            assert(rest[0] == text[0]);
        } else {
            assert(!white_space(text[0]));
        }
    }
}

/// The number that a row of decimal digits stands for.
pub open spec fn number_of(digits: Seq<char>) -> int
    decreases digits.len(),
{
    if digits.len() == 0 {
        0
    } else {
        10 * number_of(digits.drop_last()) + (digits.last() as int - '0' as int)
    }
}

/// A number in decimal is a row of digits, the first of them no zero unless it is
/// the only one, and the digits stand for the number.
pub proof fn law_decimal_reads_back(n: nat)
    ensures
        number_of(decimal_text(n)) == n,
        decimal_text(n).len() > 0,
        forall|i: int|
            0 <= i < decimal_text(n).len() ==> '0' <= (#[trigger] decimal_text(n)[i]) <= '9',
        decimal_text(n).len() > 1 ==> decimal_text(n)[0] != '0',
    decreases n,
{
    reveal_with_fuel(number_of, 2);
    if n < 10 {
        let d = decimal_text(n);
        assert(d.drop_last() =~= Seq::<char>::empty());
        assert(d.last() == digit_char(n as int));
    } else {
        let head = decimal_text(n / 10);
        let d = decimal_text(n);
        law_decimal_reads_back(n / 10);
        assert(d.drop_last() =~= head);
        assert(d.last() == digit_char((n % 10) as int));
        assert forall|i: int| 0 <= i < d.len() implies '0' <= (#[trigger] d[i]) <= '9' by {
            if i < head.len() {
                assert(d[i] == head[i]);
            }
        }
        assert(d[0] == head[0]);
        if head.len() == 1 {
            assert(head.drop_last() =~= Seq::<char>::empty());
            assert(number_of(head) == head.last() as int - '0' as int);
        }
    }
}

/// A number in decimal is never blank.
pub proof fn lemma_decimal_is_solid(n: nat)
    ensures
        trimmed_text(decimal_text(n)).len() > 0,
{
    law_decimal_reads_back(n);
    law_trimmed_text_has_solid_ends(decimal_text(n));
    assert(!white_space(decimal_text(n)[0]));
}

/// What is left of a trimmed text is a piece of it, with nothing but white space
/// before and after.
pub proof fn law_trimmed_text_is_the_middle(text: Seq<char>) -> (at: (int, int))
    ensures
        0 <= at.0 <= at.1 <= text.len(),
        trimmed_text(text) == text.subrange(at.0, at.1),
        forall|i: int| 0 <= i < at.0 ==> white_space(#[trigger] text[i]),
        forall|i: int| at.1 <= i < text.len() ==> white_space(#[trigger] text[i]),
    decreases text.len(),
{
    if text.len() == 0 {
        assert(text.subrange(0, 0) =~= text);
        (0, 0)
    } else if white_space(text.first()) {
        let rest = text.drop_first();
        let (a, b) = law_trimmed_text_is_the_middle(rest);
        assert(rest.subrange(a, b) =~= text.subrange(a + 1, b + 1));
        assert forall|i: int| 0 <= i < a + 1 implies white_space(#[trigger] text[i]) by {
            if i > 0 {
                assert(text[i] == rest[i - 1]);
            }
        }
        assert forall|i: int| b + 1 <= i < text.len() implies white_space(#[trigger] text[i]) by {
            assert(text[i] == rest[i - 1]);
        }
        (a + 1, b + 1)
    } else if white_space(text.last()) {
        let rest = text.drop_last();
        let (a, b) = law_trimmed_text_is_the_middle(rest);
        assert(rest.subrange(a, b) =~= text.subrange(a, b));
        assert forall|i: int| 0 <= i < a implies white_space(#[trigger] text[i]) by {
            assert(text[i] == rest[i]);
        }
        assert forall|i: int| b <= i < text.len() implies white_space(#[trigger] text[i]) by {
            if i < rest.len() {
                assert(text[i] == rest[i]);
            }
        }
        (a, b)
    } else {
        assert(text.subrange(0, text.len() as int) =~= text);
        (0, text.len() as int)
    }
}

/// White space is what Unicode calls so: the five controls from the tab on, the space,
/// the next-line control, the no-break space, the Ogham space mark, the eleven spaces
/// from the en quad on, the line and paragraph separators, the narrow no-break, the
/// mathematical and the ideographic space; twenty-five characters in all.
pub proof fn law_white_space_is_unicodes(c: char)
    ensures
        white_space(c) <==> seq![
            9u32,
            10,
            11,
            12,
            13,
            32,
            133,
            160,
            5760,
            8192,
            8193,
            8194,
            8195,
            8196,
            8197,
            8198,
            8199,
            8200,
            8201,
            8202,
            8232,
            8233,
            8239,
            8287,
            12288,
        ].contains(c as u32),
{
    let v = c as u32;
    let all = seq![
        9u32,
        10,
        11,
        12,
        13,
        32,
        133,
        160,
        5760,
        8192,
        8193,
        8194,
        8195,
        8196,
        8197,
        8198,
        8199,
        8200,
        8201,
        8202,
        8232,
        8233,
        8239,
        8287,
        12288,
    ];
    if 9 <= v <= 13 {
        assert(all[v - 9] == v);
    } else if 8192 <= v <= 8202 {
        assert(all[v - 8183] == v);
    } else {
        assert(all[5] == 32 && all[6] == 133 && all[7] == 160 && all[8] == 5760 && all[20] == 8232
            && all[21] == 8233 && all[22] == 8239 && all[23] == 8287 && all[24] == 12288);
    }
}

} // verus!
