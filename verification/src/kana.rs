//! Character-level kana and width conversions.

use vstd::prelude::*;

verus! {

/// Whether `u` is a Unicode scalar value (a value `char` can hold).
pub open spec fn is_scalar_value(u: u32) -> bool {
    u <= 0xD7FF || (0xE000 <= u && u <= 0x10FFFF)
}

/// `char::from_u32`: `Some` of the character with code `u` when `u` is a
/// Unicode scalar value, `None` otherwise (as std documents it).
#[verifier::external_body]
fn char_from_u32(u: u32) -> (r: Option<char>)
    ensures
        is_scalar_value(u) ==> r == Some(u as char),
        !is_scalar_value(u) ==> r is None,
{
    char::from_u32(u)
}

/// The character with scalar value `u`, which the caller has shown to be
/// a scalar value.
pub fn char_of(u: u32) -> (c: char)
    requires
        is_scalar_value(u),
    ensures
        c == u as char,
        c as u32 == u,
{
    match char_from_u32(u) {
        Some(c) => {
            c
        },
        None => ' ',
    }
}

/// Hiragana letter range (U+3041..=U+3096).
pub open spec fn is_hiragana_letter(c: char) -> bool {
    '\u{3041}' <= c && c <= '\u{3096}'
}

/// Katakana letter range that has a hiragana counterpart (U+30A1..=U+30F6).
pub open spec fn is_katakana_letter(c: char) -> bool {
    '\u{30A1}' <= c && c <= '\u{30F6}'
}

/// Katakana to hiragana for one character; everything else is unchanged.
pub open spec fn spec_kata_to_hira(c: char) -> char {
    if is_katakana_letter(c) { ((c as u32) - 0x60) as char } else { c }
}

/// Hiragana to katakana for one character; everything else is unchanged.
pub open spec fn spec_hira_to_kata(c: char) -> char {
    if is_hiragana_letter(c) { ((c as u32) + 0x60) as char } else { c }
}

pub fn katakana_to_hiragana_char(c: char) -> (r: char)
    ensures
        r == spec_kata_to_hira(c),
{
    let u = c as u32;
    if 0x30A1 <= u && u <= 0x30F6 {
        char_of(u - 0x60)
    } else {
        c
    }
}

pub fn hiragana_to_katakana_char(c: char) -> (r: char)
    ensures
        r == spec_hira_to_kata(c),
{
    let u = c as u32;
    if 0x3041 <= u && u <= 0x3096 {
        char_of(u + 0x60)
    } else {
        c
    }
}

/// Katakana to hiragana over a whole text.
pub fn katakana_to_hiragana(s: &[char]) -> (r: Vec<char>)
    ensures
        r@ == s@.map_values(|c: char| spec_kata_to_hira(c)),
{
    let mut r: Vec<char> = Vec::new();
    let mut i: usize = 0;
    while i < s.len()
        invariant
            i <= s@.len(),
            r@ == s@.take(i as int).map_values(|c: char| spec_kata_to_hira(c)),
        decreases s@.len() - i,
    {
        r.push(katakana_to_hiragana_char(s[i]));
        i = i + 1;
        assert(r@ =~= s@.take(i as int).map_values(|c: char| spec_kata_to_hira(c)));
    }
    assert(s@.take(s@.len() as int) =~= s@);
    r
}

/// Hiragana to katakana over a whole text.
pub fn hiragana_to_katakana(s: &[char]) -> (r: Vec<char>)
    ensures
        r@ == s@.map_values(|c: char| spec_hira_to_kata(c)),
{
    let mut r: Vec<char> = Vec::new();
    let mut i: usize = 0;
    while i < s.len()
        invariant
            i <= s@.len(),
            r@ == s@.take(i as int).map_values(|c: char| spec_hira_to_kata(c)),
        decreases s@.len() - i,
    {
        r.push(hiragana_to_katakana_char(s[i]));
        i = i + 1;
        assert(r@ =~= s@.take(i as int).map_values(|c: char| spec_hira_to_kata(c)));
    }
    assert(s@.take(s@.len() as int) =~= s@);
    r
}

/// Law: turning hiragana into katakana and back gives the text again,
/// for any text without katakana letters (F7 then F6 restore a hiragana
/// reading).
pub proof fn law_katakana_round_trip(s: Seq<char>)
    requires
        forall|i: int| 0 <= i < s.len() ==> !is_katakana_letter(#[trigger] s[i]),
    ensures
        s.map_values(|c: char| spec_hira_to_kata(c)).map_values(|c: char| spec_kata_to_hira(c)) == s,
{
    let k = s.map_values(|c: char| spec_hira_to_kata(c));
    assert forall|i: int| 0 <= i < s.len() implies #[trigger] spec_kata_to_hira(k[i]) == s[i] by {
        let c = s[i];
        if is_hiragana_letter(c) {
            assert(((c as u32) + 0x60) as char as u32 == (c as u32) + 0x60);
        }
    }
    assert(k.map_values(|c: char| spec_kata_to_hira(c)) =~= s);
}

/// Half-width form of a full-width katakana (or kana punctuation) code:
/// the code of the half-width base letter and the mark that follows it
/// (0: none, 1: voiced mark U+FF9E, 2: semi-voiced mark U+FF9F).
/// A base of 0 means the character has no half-width form.
pub open spec fn half_width_code(u: u32) -> (u32, u32) {
    if 0x30A1 <= u <= 0x30AA {
        let k = (u - 0x30A1) as u32;
        if k % 2 == 0 { ((0xFF67 + k / 2) as u32, 0) } else { ((0xFF71 + k / 2) as u32, 0) }
    } else if 0x30AB <= u <= 0x30C2 {
        let k = (u - 0x30AB) as u32;
        ((0xFF76 + k / 2) as u32, k % 2)
    } else if u == 0x30C3 {
        (0xFF6F, 0)
    } else if 0x30C4 <= u <= 0x30C9 {
        let k = (u - 0x30C4) as u32;
        ((0xFF82 + k / 2) as u32, k % 2)
    } else if 0x30CA <= u <= 0x30CE {
        ((0xFF85 + (u - 0x30CA)) as u32, 0)
    } else if 0x30CF <= u <= 0x30DD {
        let k = (u - 0x30CF) as u32;
        ((0xFF8A + k / 3) as u32, k % 3)
    } else if 0x30DE <= u <= 0x30E2 {
        ((0xFF8F + (u - 0x30DE)) as u32, 0)
    } else if 0x30E3 <= u <= 0x30E8 {
        let k = (u - 0x30E3) as u32;
        if k % 2 == 0 { ((0xFF6C + k / 2) as u32, 0) } else { ((0xFF94 + k / 2) as u32, 0) }
    } else if 0x30E9 <= u <= 0x30ED {
        ((0xFF97 + (u - 0x30E9)) as u32, 0)
    } else if u == 0x30EE || u == 0x30EF {
        (0xFF9C, 0)
    } else if u == 0x30F0 {
        (0xFF72, 0)
    } else if u == 0x30F1 {
        (0xFF74, 0)
    } else if u == 0x30F2 {
        (0xFF66, 0)
    } else if u == 0x30F3 {
        (0xFF9D, 0)
    } else if u == 0x30F4 {
        (0xFF73, 1)
    } else if u == 0x30F5 {
        (0xFF76, 0)
    } else if u == 0x30F6 {
        (0xFF79, 0)
    } else if u == 0x30FC {
        (0xFF70, 0)
    } else if u == 0x3002 {
        (0xFF61, 0)
    } else if u == 0x300C {
        (0xFF62, 0)
    } else if u == 0x300D {
        (0xFF63, 0)
    } else if u == 0x3001 {
        (0xFF64, 0)
    } else if u == 0x30FB {
        (0xFF65, 0)
    } else {
        (0, 0)
    }
}

/// The half-width rendering of one character: its half-width base letter
/// followed by a separate voiced / semi-voiced mark where the full-width
/// letter carries one; characters without a half-width form are kept.
pub open spec fn spec_half_width_of(c: char) -> Seq<char> {
    let (base, mark) = half_width_code(c as u32);
    if base == 0 {
        seq![c]
    } else if mark == 1 {
        seq![base as char, '\u{FF9E}']
    } else if mark == 2 {
        seq![base as char, '\u{FF9F}']
    } else {
        seq![base as char]
    }
}

/// Half-width rendering of a whole text.
pub open spec fn spec_half_width(s: Seq<char>) -> Seq<char>
    decreases s.len(),
{
    if s.len() == 0 {
        seq![]
    } else {
        spec_half_width(s.drop_last()) + spec_half_width_of(s.last())
    }
}

fn half_width_code_exec(u: u32) -> (r: (u32, u32))
    ensures
        r == half_width_code(u),
        r.0 == 0 || (0xFF61 <= r.0 <= 0xFF9D),
{
    if 0x30A1 <= u && u <= 0x30AA {
        let k = u - 0x30A1;
        if k % 2 == 0 { (0xFF67 + k / 2, 0) } else { (0xFF71 + k / 2, 0) }
    } else if 0x30AB <= u && u <= 0x30C2 {
        let k = u - 0x30AB;
        (0xFF76 + k / 2, k % 2)
    } else if u == 0x30C3 {
        (0xFF6F, 0)
    } else if 0x30C4 <= u && u <= 0x30C9 {
        let k = u - 0x30C4;
        (0xFF82 + k / 2, k % 2)
    } else if 0x30CA <= u && u <= 0x30CE {
        (0xFF85 + (u - 0x30CA), 0)
    } else if 0x30CF <= u && u <= 0x30DD {
        let k = u - 0x30CF;
        (0xFF8A + k / 3, k % 3)
    } else if 0x30DE <= u && u <= 0x30E2 {
        (0xFF8F + (u - 0x30DE), 0)
    } else if 0x30E3 <= u && u <= 0x30E8 {
        let k = u - 0x30E3;
        if k % 2 == 0 { (0xFF6C + k / 2, 0) } else { (0xFF94 + k / 2, 0) }
    } else if 0x30E9 <= u && u <= 0x30ED {
        (0xFF97 + (u - 0x30E9), 0)
    } else if u == 0x30EE || u == 0x30EF {
        (0xFF9C, 0)
    } else if u == 0x30F0 {
        (0xFF72, 0)
    } else if u == 0x30F1 {
        (0xFF74, 0)
    } else if u == 0x30F2 {
        (0xFF66, 0)
    } else if u == 0x30F3 {
        (0xFF9D, 0)
    } else if u == 0x30F4 {
        (0xFF73, 1)
    } else if u == 0x30F5 {
        (0xFF76, 0)
    } else if u == 0x30F6 {
        (0xFF79, 0)
    } else if u == 0x30FC {
        (0xFF70, 0)
    } else if u == 0x3002 {
        (0xFF61, 0)
    } else if u == 0x300C {
        (0xFF62, 0)
    } else if u == 0x300D {
        (0xFF63, 0)
    } else if u == 0x3001 {
        (0xFF64, 0)
    } else if u == 0x30FB {
        (0xFF65, 0)
    } else {
        (0, 0)
    }
}

/// Full-width katakana to half-width katakana; voiced letters become the
/// base letter plus a separate mark (`ガ` → `ｶﾞ`).
pub fn katakana_to_half_width(s: &[char]) -> (r: Vec<char>)
    ensures
        r@ == spec_half_width(s@),
{
    let mut r: Vec<char> = Vec::new();
    let mut i: usize = 0;
    while i < s.len()
        invariant
            i <= s@.len(),
            r@ == spec_half_width(s@.take(i as int)),
        decreases s@.len() - i,
    {
        let c = s[i];
        let (base, mark) = half_width_code_exec(c as u32);
        if base == 0 {
            r.push(c);
        } else {
            r.push(char_of(base));
            if mark == 1 {
                r.push('\u{FF9E}');
            } else if mark == 2 {
                r.push('\u{FF9F}');
            }
        }
        i = i + 1;
        assert(s@.take(i as int).drop_last() =~= s@.take(i - 1));
        assert(r@ =~= spec_half_width(s@.take(i as int)));
    }
    assert(s@.take(s@.len() as int) =~= s@);
    r
}

/// Printable ASCII (and space) to its full-width form; others unchanged.
pub open spec fn spec_ascii_to_fullwidth(c: char) -> char {
    if '!' <= c && c <= '~' {
        ((c as u32) + 0xFEE0) as char
    } else if c == ' ' {
        '\u{3000}'
    } else {
        c
    }
}

/// Full-width ASCII forms (and the ideographic space) to ASCII; others
/// unchanged.
pub open spec fn spec_fullwidth_to_ascii(c: char) -> char {
    if '\u{FF01}' <= c && c <= '\u{FF5E}' {
        ((c as u32) - 0xFEE0) as char
    } else if c == '\u{3000}' {
        ' '
    } else {
        c
    }
}

pub fn ascii_to_fullwidth_char(c: char) -> (r: char)
    ensures
        r == spec_ascii_to_fullwidth(c),
{
    let u = c as u32;
    if 0x21 <= u && u <= 0x7E {
        char_of(u + 0xFEE0)
    } else if c == ' ' {
        '\u{3000}'
    } else {
        c
    }
}

pub fn fullwidth_to_ascii_char(c: char) -> (r: char)
    ensures
        r == spec_fullwidth_to_ascii(c),
{
    let u = c as u32;
    if 0xFF01 <= u && u <= 0xFF5E {
        char_of(u - 0xFEE0)
    } else if c == '\u{3000}' {
        ' '
    } else {
        c
    }
}

/// Whether `c` lies in the hiragana or katakana block.
pub open spec fn spec_is_kana(c: char) -> bool {
    ('\u{3040}' <= c && c <= '\u{309F}') || ('\u{30A0}' <= c && c <= '\u{30FF}')
}

pub fn is_kana(c: char) -> (r: bool)
    ensures
        r == spec_is_kana(c),
{
    ('\u{3040}' <= c && c <= '\u{309F}') || ('\u{30A0}' <= c && c <= '\u{30FF}')
}

/// Hiragana letters (without the combining marks at the end of the block)
/// plus the prolonged sound mark, which occurs inside kana readings.
pub open spec fn spec_is_hiragana_char(c: char) -> bool {
    is_hiragana_letter(c) || c == '\u{30FC}'
}

pub fn is_hiragana_char(c: char) -> (r: bool)
    ensures
        r == spec_is_hiragana_char(c),
{
    ('\u{3041}' <= c && c <= '\u{3096}') || c == '\u{30FC}'
}

/// Whether every character of `s` is a hiragana character (and `s` is not
/// empty).
pub open spec fn spec_is_pure_hiragana(s: Seq<char>) -> bool {
    s.len() > 0 && forall|k: int| 0 <= k < s.len() ==> spec_is_hiragana_char(#[trigger] s[k])
}

pub fn is_pure_hiragana(s: &[char]) -> (r: bool)
    ensures
        r == spec_is_pure_hiragana(s@),
{
    if s.len() == 0 {
        return false;
    }
    let mut i: usize = 0;
    while i < s.len()
        invariant
            i <= s@.len(),
            forall|k: int| 0 <= k < i ==> spec_is_hiragana_char(#[trigger] s@[k]),
        decreases s@.len() - i,
    {
        if !is_hiragana_char(s[i]) {
            return false;
        }
        i = i + 1;
    }
    true
}

} // verus!
