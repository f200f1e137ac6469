//! Small pieces of text handling: decimal numbers, concatenation, and looking for
//! a word in a space-separated list.
use vstd::prelude::*;
use vstd::string::*;

verus! {

pub open spec fn digit(d: nat) -> char {
    (48 + d) as char
}

/// The decimal digits of `n`, without leading zeros.
pub open spec fn decimal(n: nat) -> Seq<char>
    decreases n,
{
    if n < 10 {
        seq![digit(n)]
    } else {
        decimal(n / 10).push(digit(n % 10))
    }
}

/// The decimal digits of `n`, behind a minus sign where it is negative.
pub open spec fn decimal_int(n: int) -> Seq<char> {
    if n < 0 {
        seq!['-'] + decimal((-n) as nat)
    } else {
        decimal(n as nat)
    }
}

fn digit_str(d: u64) -> (s: &'static str)
    requires
        d < 10,
    ensures
        s@ == seq![digit(d as nat)],
{
    proof {
        reveal_strlit("0");
        reveal_strlit("1");
        reveal_strlit("2");
        reveal_strlit("3");
        reveal_strlit("4");
        reveal_strlit("5");
        reveal_strlit("6");
        reveal_strlit("7");
        reveal_strlit("8");
        reveal_strlit("9");
    }
    let s = match d {
        0 => "0",
        1 => "1",
        2 => "2",
        3 => "3",
        4 => "4",
        5 => "5",
        6 => "6",
        7 => "7",
        8 => "8",
        _ => "9",
    };
    assert(s@ =~= seq![digit(d as nat)]);
    s
}

pub fn decimal_string(n: u64) -> (s: String)
    ensures
        s@ == decimal(n as nat),
    decreases n,
{
    if n < 10 {
        String::from_str(digit_str(n))
    } else {
        let mut s = decimal_string(n / 10);
        s.append(digit_str(n % 10));
        assert(s@ =~= decimal(n as nat));
        s
    }
}

pub fn decimal_int_string(n: i64) -> (s: String)
    ensures
        s@ == decimal_int(n as int),
{
    if n < 0 {
        proof {
            reveal_strlit("-");
        }
        let mut s = String::from_str("-");
        let size: u64 = (-(n as i128)) as u64;
        s.append(decimal_string(size).as_str());
        assert(s@ =~= decimal_int(n as int));
        s
    } else {
        decimal_string(n as u64)
    }
}

pub open spec fn hex_digit(d: nat) -> char {
    if d < 10 {
        (48 + d) as char
    } else {
        (87 + d) as char
    }
}

/// The hexadecimal digits of `n`, in lower case, without leading zeros.
pub open spec fn hex(n: nat) -> Seq<char>
    decreases n,
{
    if n < 16 {
        seq![hex_digit(n)]
    } else {
        hex(n / 16).push(hex_digit(n % 16))
    }
}

fn hex_digit_str(d: u32) -> (s: &'static str)
    requires
        d < 16,
    ensures
        s@ == seq![hex_digit(d as nat)],
{
    if d < 10 {
        return digit_str(d as u64);
    }
    proof {
        reveal_strlit("a");
        reveal_strlit("b");
        reveal_strlit("c");
        reveal_strlit("d");
        reveal_strlit("e");
        reveal_strlit("f");
    }
    let s = match d {
        10 => "a",
        11 => "b",
        12 => "c",
        13 => "d",
        14 => "e",
        _ => "f",
    };
    assert(s@ =~= seq![hex_digit(d as nat)]);
    s
}

pub fn hex_string(n: u32) -> (s: String)
    ensures
        s@ == hex(n as nat),
    decreases n,
{
    if n < 16 {
        String::from_str(hex_digit_str(n))
    } else {
        let mut s = hex_string(n / 16);
        s.append(hex_digit_str(n % 16));
        assert(s@ =~= hex(n as nat));
        s
    }
}

/// What is said of bytes that are no UTF-8.
pub uninterp spec fn utf8_error_text(bytes: Seq<u8>) -> Seq<char>;

/// `String::from_utf8`, the error rendered: it succeeds exactly on valid UTF-8, with
/// the characters that the bytes encode. How the error reads depends on the bytes
/// alone, and has a name here.
#[verifier::external_body]
pub(crate) fn utf8_string(bytes: Vec<u8>) -> (r: Result<String, String>)
    ensures
        r is Ok <==> vstd::utf8::valid_utf8(bytes@),
        r matches Ok(s) ==> s@ == vstd::utf8::decode_utf8(bytes@),
        r matches Err(e) ==> e@ == utf8_error_text(bytes@),
{
    String::from_utf8(bytes).map_err(|e| e.to_string())
}

/// The name of the selection that the compositor of a screen owns.
pub open spec fn compositor_selection_name(screen: int) -> Seq<char> {
    "_NET_WM_CM_S"@ + decimal_int(screen)
}

/// The name of the selection that the compositor of a screen owns.
pub fn compositor_selection(screen: i64) -> (name: String)
    ensures
        name@ == compositor_selection_name(screen as int),
{
    join("_NET_WM_CM_S", decimal_int_string(screen).as_str())
}

/// `a` followed by `b`.
pub fn join(a: &str, b: &str) -> (s: String)
    ensures
        s@ == a@ + b@,
{
    let mut s = String::from_str(a);
    s.append(b);
    s
}

/// The characters of `s`.
pub fn chars_of(s: &str) -> (v: Vec<char>)
    ensures
        v@ == s@,
{
    let mut v: Vec<char> = Vec::new();
    for c in it: s.chars()
        invariant
            v@ == it.seq().take(it.index()),
    {
        v.push(c);
        assert(it.seq().take(it.index() + 1) =~= it.seq().take(it.index()).push(c));
    }
    v
}

/// `word` stands between `from` and `to` in `text` as a whole word: no space in it,
/// and a space or an end of the text on either side.
pub open spec fn word_at(text: Seq<char>, word: Seq<char>, from: int, to: int) -> bool {
    &&& 0 <= from <= to <= text.len()
    &&& text.subrange(from, to) == word
    &&& !word.contains(' ')
    &&& from == 0 || text[from - 1] == ' '
    &&& to == text.len() || text[to] == ' '
}

/// `word` is one of the words that `text` holds, where every single space parts
/// two words.
pub open spec fn has_word(text: Seq<char>, word: Seq<char>) -> bool {
    exists|from: int, to: int| word_at(text, word, from, to)
}

/// Tells whether `text`, cut at every space, holds `word`.
pub fn contains_word(text: &str, word: &str) -> (found: bool)
    ensures
        found == has_word(text@, word@),
{
    let t = chars_of(text);
    let w = chars_of(word);
    for k in 0..w.len()
        invariant
            w@ == word@,
            forall|j: int| 0 <= j < k ==> w@[j] != ' ',
    {
        if w[k] == ' ' {
            assert(word@.contains(word@[k as int]));
            return false;
        }
    }
    if w.len() > t.len() {
        assert forall|from: int, to: int| !word_at(text@, word@, from, to) by {
            if word_at(text@, word@, from, to) {
                assert(text@.subrange(from, to).len() == to - from);
            }
        }
        return false;
    }
    let last: usize = t.len() - w.len();
    let mut from: usize = 0;
    loop
        invariant
            t@ == text@,
            w@ == word@,
            last == t.len() - w.len(),
            from <= last,
            !word@.contains(' '),
            forall|f: int, to: int| #![trigger word_at(text@, word@, f, to)]
                f < from ==> !word_at(text@, word@, f, to),
        ensures
            from == last,
            forall|f: int, to: int| #![trigger word_at(text@, word@, f, to)]
                f < last + 1 ==> !word_at(text@, word@, f, to),
        decreases last - from,
    {
        let opens = from == 0 || t[from - 1] == ' ';
        let closes = from + w.len() == t.len() || t[from + w.len()] == ' ';
        let ghost end = from + w@.len();
        let mut same = true;
        let mut k: usize = 0;
        while k < w.len()
            invariant
                k <= w.len(),
                from + w.len() <= t.len(),
                same == (forall|j: int| 0 <= j < k ==> t@[from + j] == w@[j]),
            decreases w@.len() - k,
        {
            if t[from + k] != w[k] {
                same = false;
            }
            k = k + 1;
        }
        if opens && closes && same {
            assert(text@.subrange(from as int, end) =~= word@);
            assert(word_at(text@, word@, from as int, end));
            return true;
        }
        assert forall|f: int, to: int| #![trigger word_at(text@, word@, f, to)]
            f < from + 1 implies !word_at(text@, word@, f, to) by {
            if f == from && word_at(text@, word@, f, to) {
                assert(text@.subrange(f, to).len() == to - f);
                assert(to == end);
                assert forall|j: int| 0 <= j < w@.len() implies t@[from + j] == w@[j] by {
                    assert(text@.subrange(f, to)[j] == text@[f + j]);
                }
            }
        }
        if from == last {
            break;
        }
        from = from + 1;
    }
    assert forall|f: int, to: int| !word_at(text@, word@, f, to) by {
        if word_at(text@, word@, f, to) {
            assert(text@.subrange(f, to).len() == to - f);
        }
    }
    false
}

/// What a digit counts, in lower case.
pub open spec fn digit_worth(c: char) -> int {
    if '0' <= c <= '9' {
        c as int - '0' as int
    } else {
        c as int - 'a' as int + 10
    }
}

/// The number that digits stand for in a base.
pub open spec fn worth(digits: Seq<char>, base: int) -> int
    decreases digits.len(),
{
    if digits.len() == 0 {
        0
    } else {
        worth(digits.drop_last(), base) * base + digit_worth(digits.last())
    }
}

/// Decimal digits are digits, begin with a zero for zero alone, and stand for the number.
pub proof fn decimal_reads_back(n: nat)
    ensures
        decimal(n).len() > 0,
        forall|i: int| 0 <= i < decimal(n).len() ==> '0' <= #[trigger] decimal(n)[i] <= '9',
        decimal(n)[0] == '0' <==> n == 0,
        worth(decimal(n), 10) == n,
    decreases n,
{
    reveal_with_fuel(worth, 2);
    if n >= 10 {
        decimal_reads_back(n / 10);
        assert(decimal(n).drop_last() =~= decimal(n / 10));
        assert(decimal(n)[0] == decimal(n / 10)[0]);
    }
}

/// Hexadecimal digits are digits or the letters up to f, begin with a zero for zero
/// alone, and stand for the number.
pub proof fn hex_reads_back(n: nat)
    ensures
        hex(n).len() > 0,
        forall|i: int|
            0 <= i < hex(n).len() ==> '0' <= #[trigger] hex(n)[i] <= '9' || 'a' <= hex(n)[i] <= 'f',
        hex(n)[0] == '0' <==> n == 0,
        worth(hex(n), 16) == n,
    decreases n,
{
    reveal_with_fuel(worth, 2);
    if n >= 16 {
        hex_reads_back(n / 16);
        assert(hex(n).drop_last() =~= hex(n / 16));
        assert(hex(n)[0] == hex(n / 16)[0]);
    }
}

/// A negative number is the positive one behind a minus sign.
pub proof fn negative_numbers_have_a_sign(n: int)
    requires
        n > 0,
    ensures
        decimal_int(n) == decimal(n as nat),
        decimal_int(0) == decimal(0),
        decimal_int(-n).len() == decimal(n as nat).len() + 1,
        decimal_int(-n)[0] == '-',
        decimal_int(-n).skip(1) == decimal(n as nat),
{
    assert(decimal_int(-n).skip(1) =~= decimal(n as nat));
}

/// The selection of a screen is named by the number of the screen.
pub proof fn selections_are_numbered(screen: int)
    ensures
        compositor_selection_name(screen).take(12) == "_NET_WM_CM_S"@,
        compositor_selection_name(screen).skip(12) == decimal_int(screen),
{
    reveal_strlit("_NET_WM_CM_S");
    assert(compositor_selection_name(screen).take(12) =~= "_NET_WM_CM_S"@);
    assert(compositor_selection_name(screen).skip(12) =~= decimal_int(screen));
}

/// A text without a space is one word.
pub proof fn text_without_space_is_a_word(text: Seq<char>, word: Seq<char>)
    requires
        !text.contains(' '),
    ensures
        has_word(text, word) <==> text == word,
{
    if has_word(text, word) {
        let (from, to) = choose|from: int, to: int| word_at(text, word, from, to);
        assert(word_at(text, word, from, to));
        if from > 0 {
            assert(text.contains(text[from - 1]));
        }
        if to < text.len() {
            assert(text.contains(text[to]));
        }
        assert(text.subrange(0, text.len() as int) =~= text);
    }
    if text == word {
        assert(text.subrange(0, text.len() as int) =~= text);
        assert(word_at(text, word, 0, text.len() as int));
    }
}

/// Every space parts the words before it from those behind it.
pub proof fn spaces_part_words(before: Seq<char>, behind: Seq<char>, word: Seq<char>)
    ensures
        has_word(before.push(' ') + behind, word) <==> has_word(before, word) || has_word(
            behind,
            word,
        ),
{
    let text = before.push(' ') + behind;
    let n = before.len() as int;
    if has_word(before, word) {
        let (from, to) = choose|from: int, to: int| word_at(before, word, from, to);
        assert(word_at(before, word, from, to));
        assert(text.subrange(from, to) =~= before.subrange(from, to));
        assert(word_at(text, word, from, to));
    }
    if has_word(behind, word) {
        let (from, to) = choose|from: int, to: int| word_at(behind, word, from, to);
        assert(word_at(behind, word, from, to));
        assert(text.subrange(n + 1 + from, n + 1 + to) =~= behind.subrange(from, to));
        assert(word_at(text, word, n + 1 + from, n + 1 + to));
    }
    if has_word(text, word) {
        let (from, to) = choose|from: int, to: int| word_at(text, word, from, to);
        assert(word_at(text, word, from, to));
        if to <= n {
            assert(before.subrange(from, to) =~= text.subrange(from, to));
            assert(word_at(before, word, from, to));
        } else if from <= n {
            assert(word[n - from] == ' ');
            assert(word.contains(' '));
        } else {
            assert(behind.subrange(from - n - 1, to - n - 1) =~= text.subrange(from, to));
            assert(word_at(behind, word, from - n - 1, to - n - 1));
        }
    }
}

} // verus!
