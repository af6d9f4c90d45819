//! Romaji-to-kana rules and the incremental romaji reader.
//!
//! Keys are typed one at a time. A run of keys that can still grow into a
//! rule stays pending ("live"); a complete rule emits its kana; a doubled
//! consonant emits `っ` and keeps the second consonant; an `n` before a
//! key that cannot follow it emits `ん`; any other key that cannot start a
//! rule passes through unchanged.

use vstd::prelude::*;
use crate::kana::char_of;
use crate::text::slice_chars;

verus! {

// ---------------------------------------------------------------------
// The rule table, over character codes. A result `(a, b)` is the kana
// `a` followed by `b`; `b == 0` means a single kana and `a == 0` means
// "no rule".
// ---------------------------------------------------------------------

/// Index of a vowel key (`a i u e o` → 0..4), or -1.
pub open spec fn vowel_index(c: char) -> int {
    if c == 'a' { 0 } else if c == 'i' { 1 } else if c == 'u' { 2 } else if c == 'e' { 3 } else if c == 'o' { 4 } else { -1 }
}

/// Small vowel kana `ぁぃぅぇぉ`.
pub open spec fn small_vowel(v: int) -> u32 {
    (0x3041 + 2 * v) as u32
}

/// Small kana after an i-row letter (`ゃ ぃ ゅ ぇ ょ`).
pub open spec fn small_y(v: int) -> u32 {
    if v == 0 { 0x3083 } else if v == 1 { 0x3043 } else if v == 2 { 0x3085 } else if v == 3 { 0x3047 } else { 0x3087 }
}

/// The i-row letter of a consonant with a `y` (yōon) row, or 0.
pub open spec fn i_kana(c: char) -> u32 {
    if c == 'k' { 0x304D } else if c == 'g' { 0x304E } else if c == 's' { 0x3057 }
    else if c == 'z' { 0x3058 } else if c == 't' || c == 'c' { 0x3061 } else if c == 'd' { 0x3062 }
    else if c == 'n' { 0x306B } else if c == 'h' { 0x3072 } else if c == 'b' { 0x3073 }
    else if c == 'p' { 0x3074 } else if c == 'm' { 0x307F } else if c == 'r' { 0x308A }
    else { 0 }
}

/// Kana for a one-key consonant prefix `c` followed by vowel `v`.
pub open spec fn row1(c: char, v: int) -> (u32, u32) {
    if c == 'k' { ((0x304B + 2 * v) as u32, 0) }
    else if c == 'g' { ((0x304C + 2 * v) as u32, 0) }
    else if c == 's' { ((0x3055 + 2 * v) as u32, 0) }
    else if c == 'z' { ((0x3056 + 2 * v) as u32, 0) }
    else if c == 't' || c == 'd' {
        let base: u32 = if c == 't' { 0x305F } else { 0x3060 };
        let off: u32 = if v == 0 { 0 } else if v == 1 { 2 } else if v == 2 { 5 } else if v == 3 { 7 } else { 9 };
        ((base + off) as u32, 0)
    }
    else if c == 'n' { ((0x306A + v) as u32, 0) }
    else if c == 'h' { ((0x306F + 3 * v) as u32, 0) }
    else if c == 'b' { ((0x3070 + 3 * v) as u32, 0) }
    else if c == 'p' { ((0x3071 + 3 * v) as u32, 0) }
    else if c == 'm' { ((0x307E + v) as u32, 0) }
    else if c == 'r' { ((0x3089 + v) as u32, 0) }
    else if c == 'y' {
        if v == 0 { (0x3084, 0) } else if v == 1 { (0x3044, 0) } else if v == 2 { (0x3086, 0) }
        else if v == 3 { (0x3044, 0x3047) } else { (0x3088, 0) }
    }
    else if c == 'w' {
        if v == 0 { (0x308F, 0) } else if v == 1 { (0x3046, 0x3043) } else if v == 2 { (0x3046, 0) }
        else if v == 3 { (0x3046, 0x3047) } else { (0x3092, 0) }
    }
    else if c == 'f' || c == 'v' {
        let base: u32 = if c == 'f' { 0x3075 } else { 0x3094 };
        if v == 2 { (base, 0) } else { (base, small_vowel(v)) }
    }
    else if c == 'j' {
        if v == 1 { (0x3058, 0) } else { (0x3058, small_y(v)) }
    }
    else if c == 'c' {
        if v == 0 { (0x304B, 0) } else if v == 1 { (0x3057, 0) } else if v == 2 { (0x304F, 0) }
        else if v == 3 { (0x305B, 0) } else { (0x3053, 0) }
    }
    else if c == 'x' || c == 'l' { (small_vowel(v), 0) }
    else { (0, 0) }
}

/// Kana for a two-key consonant prefix `c0 c1` followed by vowel `v`.
pub open spec fn row2(c0: char, c1: char, v: int) -> (u32, u32) {
    if c1 == 'y' && i_kana(c0) != 0 { (i_kana(c0), small_y(v)) }
    else if c1 == 'y' && (c0 == 'x' || c0 == 'l') {
        if v == 0 { (0x3083, 0) } else if v == 2 { (0x3085, 0) } else if v == 4 { (0x3087, 0) }
        else { (small_vowel(v), 0) }
    }
    else if c1 == 'h' && (c0 == 's' || c0 == 'c') {
        let base: u32 = if c0 == 's' { 0x3057 } else { 0x3061 };
        if v == 1 { (base, 0) } else { (base, small_y(v)) }
    }
    else if c0 == 't' && c1 == 's' {
        if v == 2 { (0x3064, 0) } else { (0x3064, small_vowel(v)) }
    }
    else if c1 == 'h' && (c0 == 't' || c0 == 'd') {
        let base: u32 = if c0 == 't' { 0x3066 } else { 0x3067 };
        (base, small_y(v))
    }
    else if c1 == 't' && (c0 == 'x' || c0 == 'l') {
        if v == 2 { (0x3063, 0) } else { (0, 0) }
    }
    else if c1 == 'w' && (c0 == 'x' || c0 == 'l') {
        if v == 0 { (0x308E, 0) } else { (0, 0) }
    }
    else { (0, 0) }
}

/// Kana for a three-key consonant prefix followed by vowel `v`.
pub open spec fn row3(c0: char, c1: char, c2: char, v: int) -> (u32, u32) {
    if (c0 == 'x' || c0 == 'l') && c1 == 't' && c2 == 's' && v == 2 { (0x3063, 0) } else { (0, 0) }
}

/// Kana for a key that is a rule by itself (punctuation and symbols).
pub open spec fn symbol_code(c: char) -> u32 {
    if c == '-' { 0x30FC } else if c == ',' { 0x3001 } else if c == '.' { 0x3002 }
    else if c == '[' { 0x300C } else if c == ']' { 0x300D } else if c == '<' { 0xFF1C }
    else if c == '>' { 0xFF1E } else if c == '~' { 0x301C } else if c == '/' { 0x30FB }
    else if c == '!' { 0xFF01 } else if c == '?' { 0xFF1F } else { 0 }
}

/// The rule for a complete key sequence, as codes (`(0, 0)`: no rule).
pub open spec fn rule_codes(key: Seq<char>) -> (u32, u32) {
    if key.len() == 1 && symbol_code(key[0]) != 0 {
        (symbol_code(key[0]), 0)
    } else if key.len() == 2 && key[0] == 'n' && (key[1] == 'n' || key[1] == '\'') {
        (0x3093, 0)
    } else if key.len() >= 1 && key.len() <= 4 && vowel_index(key[key.len() - 1]) >= 0 {
        let v = vowel_index(key[key.len() - 1]);
        if key.len() == 1 {
            ((0x3042 + 2 * v) as u32, 0)
        } else if key.len() == 2 {
            row1(key[0], v)
        } else if key.len() == 3 {
            row2(key[0], key[1], v)
        } else {
            row3(key[0], key[1], key[2], v)
        }
    } else {
        (0, 0)
    }
}

/// The kana a complete key sequence produces, if it is a rule.
pub open spec fn spec_rule(key: Seq<char>) -> Option<Seq<char>> {
    let (a, b) = rule_codes(key);
    if a == 0 {
        None
    } else if b == 0 {
        Some(seq![a as char])
    } else {
        Some(seq![a as char, b as char])
    }
}

/// Keys that can begin a syllable before a vowel.
pub open spec fn is_consonant_key(c: char) -> bool {
    c == 'k' || c == 'g' || c == 's' || c == 'z' || c == 't' || c == 'd' || c == 'n'
    || c == 'h' || c == 'b' || c == 'p' || c == 'm' || c == 'r' || c == 'y' || c == 'w'
    || c == 'f' || c == 'v' || c == 'j' || c == 'c' || c == 'x' || c == 'l'
}

/// Whether `p` is a consonant prefix: the keys before the vowel of some
/// rule. These are exactly the key runs that may still grow into a rule.
pub open spec fn is_consonant_prefix(p: Seq<char>) -> bool {
    if p.len() == 0 {
        true
    } else if p.len() == 1 {
        is_consonant_key(p[0])
    } else if p.len() == 2 {
        (p[1] == 'y' && (i_kana(p[0]) != 0 || p[0] == 'x' || p[0] == 'l'))
        || (p[1] == 'h' && (p[0] == 's' || p[0] == 'c' || p[0] == 't' || p[0] == 'd'))
        || (p[0] == 't' && p[1] == 's')
        || ((p[0] == 'x' || p[0] == 'l') && (p[1] == 't' || p[1] == 'w'))
    } else if p.len() == 3 {
        (p[0] == 'x' || p[0] == 'l') && p[1] == 't' && p[2] == 's'
    } else {
        false
    }
}

/// Consonants whose doubling gives a small `っ`.
pub open spec fn is_sokuon_key(c: char) -> bool {
    is_consonant_key(c) && c != 'n' && c != 'x' && c != 'l'
}

/// An emitted display character, with the lone key it came from when that
/// key could still start a syllable (so a later edit can take it back).
pub type Emitted = Seq<(char, Option<char>)>;

/// A passed-through key as an emitted character.
pub open spec fn pass_through(c: char) -> (char, Option<char>) {
    (c, if is_consonant_key(c) { Some(c) } else { None })
}

/// Rule output as emitted characters (not reclaimable).
pub open spec fn plain(s: Seq<char>) -> Emitted {
    s.map_values(|c: char| (c, None::<char>))
}

/// Resolve a run of keys into emitted characters and the keys left pending.
pub open spec fn resolve(buf: Seq<char>) -> (Emitted, Seq<char>)
    decreases buf.len(),
{
    if buf.len() == 0 {
        (seq![], seq![])
    } else if spec_rule(buf) is Some {
        (plain(spec_rule(buf)->0), seq![])
    } else if is_consonant_prefix(buf) {
        (seq![], buf)
    } else {
        let rest = resolve(buf.drop_first());
        if buf.len() >= 2 && buf[0] == buf[1] && is_sokuon_key(buf[0]) {
            (seq![('\u{3063}', Some(buf[0]))] + rest.0, rest.1)
        } else if buf.len() >= 2 && buf[0] == 'n' {
            (seq![('\u{3093}', Some('n'))] + rest.0, rest.1)
        } else {
            (seq![pass_through(buf[0])] + rest.0, rest.1)
        }
    }
}

/// Settling pending keys: a lone `n` becomes `ん`; anything else is kept
/// as typed.
pub open spec fn settle(live: Seq<char>) -> Emitted {
    if live == seq!['n'] {
        seq![('\u{3093}', None::<char>)]
    } else {
        live.map_values(|c: char| pass_through(c))
    }
}

// ---------------------------------------------------------------------
// Executable rules
// ---------------------------------------------------------------------

fn vowel_index_exec(c: char) -> (r: i32)
    ensures
        r == vowel_index(c),
{
    if c == 'a' { 0 } else if c == 'i' { 1 } else if c == 'u' { 2 } else if c == 'e' { 3 } else if c == 'o' { 4 } else { -1 }
}

fn small_y_exec(v: u32) -> (r: u32)
    ensures
        r == small_y(v as int),
{
    if v == 0 { 0x3083 } else if v == 1 { 0x3043 } else if v == 2 { 0x3085 } else if v == 3 { 0x3047 } else { 0x3087 }
}

fn i_kana_exec(c: char) -> (r: u32)
    ensures
        r == i_kana(c),
{
    if c == 'k' { 0x304D } else if c == 'g' { 0x304E } else if c == 's' { 0x3057 }
    else if c == 'z' { 0x3058 } else if c == 't' || c == 'c' { 0x3061 } else if c == 'd' { 0x3062 }
    else if c == 'n' { 0x306B } else if c == 'h' { 0x3072 } else if c == 'b' { 0x3073 }
    else if c == 'p' { 0x3074 } else if c == 'm' { 0x307F } else if c == 'r' { 0x308A }
    else { 0 }
}

fn row1_exec(c: char, v: u32) -> (r: (u32, u32))
    requires
        v <= 4,
    ensures
        r == row1(c, v as int),
{
    if c == 'k' { (0x304B + 2 * v, 0) }
    else if c == 'g' { (0x304C + 2 * v, 0) }
    else if c == 's' { (0x3055 + 2 * v, 0) }
    else if c == 'z' { (0x3056 + 2 * v, 0) }
    else if c == 't' || c == 'd' {
        let base: u32 = if c == 't' { 0x305F } else { 0x3060 };
        let off: u32 = if v == 0 { 0 } else if v == 1 { 2 } else if v == 2 { 5 } else if v == 3 { 7 } else { 9 };
        (base + off, 0)
    }
    else if c == 'n' { (0x306A + v, 0) }
    else if c == 'h' { (0x306F + 3 * v, 0) }
    else if c == 'b' { (0x3070 + 3 * v, 0) }
    else if c == 'p' { (0x3071 + 3 * v, 0) }
    else if c == 'm' { (0x307E + v, 0) }
    else if c == 'r' { (0x3089 + v, 0) }
    else if c == 'y' {
        if v == 0 { (0x3084, 0) } else if v == 1 { (0x3044, 0) } else if v == 2 { (0x3086, 0) }
        else if v == 3 { (0x3044, 0x3047) } else { (0x3088, 0) }
    }
    else if c == 'w' {
        if v == 0 { (0x308F, 0) } else if v == 1 { (0x3046, 0x3043) } else if v == 2 { (0x3046, 0) }
        else if v == 3 { (0x3046, 0x3047) } else { (0x3092, 0) }
    }
    else if c == 'f' || c == 'v' {
        let base: u32 = if c == 'f' { 0x3075 } else { 0x3094 };
        if v == 2 { (base, 0) } else { (base, 0x3041 + 2 * v) }
    }
    else if c == 'j' {
        if v == 1 { (0x3058, 0) } else { (0x3058, small_y_exec(v)) }
    }
    else if c == 'c' {
        if v == 0 { (0x304B, 0) } else if v == 1 { (0x3057, 0) } else if v == 2 { (0x304F, 0) }
        else if v == 3 { (0x305B, 0) } else { (0x3053, 0) }
    }
    else if c == 'x' || c == 'l' { (0x3041 + 2 * v, 0) }
    else { (0, 0) }
}

fn row2_exec(c0: char, c1: char, v: u32) -> (r: (u32, u32))
    requires
        v <= 4,
    ensures
        r == row2(c0, c1, v as int),
{
    let ik = i_kana_exec(c0);
    if c1 == 'y' && ik != 0 { (ik, small_y_exec(v)) }
    else if c1 == 'y' && (c0 == 'x' || c0 == 'l') {
        if v == 0 { (0x3083, 0) } else if v == 2 { (0x3085, 0) } else if v == 4 { (0x3087, 0) }
        else { (0x3041 + 2 * v, 0) }
    }
    else if c1 == 'h' && (c0 == 's' || c0 == 'c') {
        let base: u32 = if c0 == 's' { 0x3057 } else { 0x3061 };
        if v == 1 { (base, 0) } else { (base, small_y_exec(v)) }
    }
    else if c0 == 't' && c1 == 's' {
        if v == 2 { (0x3064, 0) } else { (0x3064, 0x3041 + 2 * v) }
    }
    else if c1 == 'h' && (c0 == 't' || c0 == 'd') {
        let base: u32 = if c0 == 't' { 0x3066 } else { 0x3067 };
        (base, small_y_exec(v))
    }
    else if c1 == 't' && (c0 == 'x' || c0 == 'l') {
        if v == 2 { (0x3063, 0) } else { (0, 0) }
    }
    else if c1 == 'w' && (c0 == 'x' || c0 == 'l') {
        if v == 0 { (0x308E, 0) } else { (0, 0) }
    }
    else { (0, 0) }
}

fn symbol_code_exec(c: char) -> (r: u32)
    ensures
        r == symbol_code(c),
{
    if c == '-' { 0x30FC } else if c == ',' { 0x3001 } else if c == '.' { 0x3002 }
    else if c == '[' { 0x300C } else if c == ']' { 0x300D } else if c == '<' { 0xFF1C }
    else if c == '>' { 0xFF1E } else if c == '~' { 0x301C } else if c == '/' { 0x30FB }
    else if c == '!' { 0xFF01 } else if c == '?' { 0xFF1F } else { 0 }
}

fn rule_codes_exec(key: &[char]) -> (r: (u32, u32))
    ensures
        r == rule_codes(key@),
        r.0 == 0 || (0x3001 <= r.0 <= 0x30FC) || (0xFF01 <= r.0 <= 0xFF1F),
        r.1 == 0 || (0x3041 <= r.1 <= 0x3087),
{
    let n = key.len();
    if n == 1 && symbol_code_exec(key[0]) != 0 {
        (symbol_code_exec(key[0]), 0)
    } else if n == 2 && key[0] == 'n' && (key[1] == 'n' || key[1] == '\'') {
        (0x3093, 0)
    } else if n >= 1 && n <= 4 && vowel_index_exec(key[n - 1]) >= 0 {
        let v = vowel_index_exec(key[n - 1]) as u32;
        if n == 1 {
            (0x3042 + 2 * v, 0)
        } else if n == 2 {
            row1_exec(key[0], v)
        } else if n == 3 {
            row2_exec(key[0], key[1], v)
        } else if (key[0] == 'x' || key[0] == 'l') && key[1] == 't' && key[2] == 's' && v == 2 {
            (0x3063, 0)
        } else {
            (0, 0)
        }
    } else {
        (0, 0)
    }
}

/// The kana a complete key sequence produces, if it is a rule.
pub fn lookup_rule(key: &[char]) -> (r: Option<Vec<char>>)
    ensures
        r is Some <==> spec_rule(key@) is Some,
        r matches Some(v) ==> v@ == spec_rule(key@)->0,
{
    let (a, b) = rule_codes_exec(key);
    if a == 0 {
        None
    } else if b == 0 {
        let v: Vec<char> = vec![char_of(a)];
        proof {
            assert(v@ =~= seq![a as char]);
        }
        Some(v)
    } else {
        let v: Vec<char> = vec![char_of(a), char_of(b)];
        proof {
            assert(v@ =~= seq![a as char, b as char]);
        }
        Some(v)
    }
}

fn is_consonant_key_exec(c: char) -> (r: bool)
    ensures
        r == is_consonant_key(c),
{
    c == 'k' || c == 'g' || c == 's' || c == 'z' || c == 't' || c == 'd' || c == 'n'
    || c == 'h' || c == 'b' || c == 'p' || c == 'm' || c == 'r' || c == 'y' || c == 'w'
    || c == 'f' || c == 'v' || c == 'j' || c == 'c' || c == 'x' || c == 'l'
}

/// Whether the keys `p` may still grow into a rule.
pub fn consonant_prefix(p: &[char]) -> (r: bool)
    ensures
        r == is_consonant_prefix(p@),
{
    let n = p.len();
    if n == 0 {
        true
    } else if n == 1 {
        is_consonant_key_exec(p[0])
    } else if n == 2 {
        (p[1] == 'y' && (i_kana_exec(p[0]) != 0 || p[0] == 'x' || p[0] == 'l'))
        || (p[1] == 'h' && (p[0] == 's' || p[0] == 'c' || p[0] == 't' || p[0] == 'd'))
        || (p[0] == 't' && p[1] == 's')
        || ((p[0] == 'x' || p[0] == 'l') && (p[1] == 't' || p[1] == 'w'))
    } else if n == 3 {
        (p[0] == 'x' || p[0] == 'l') && p[1] == 't' && p[2] == 's'
    } else {
        false
    }
}

fn pass_through_exec(c: char) -> (r: (char, Option<char>))
    ensures
        r == pass_through(c),
{
    (c, if is_consonant_key_exec(c) { Some(c) } else { None })
}

/// Resolve a run of keys into emitted characters and the keys left
/// pending.
pub fn resolve_keys(buf: &[char]) -> (r: (Vec<(char, Option<char>)>, Vec<char>))
    ensures
        (r.0@, r.1@) == resolve(buf@),
{
    let mut emitted: Vec<(char, Option<char>)> = Vec::new();
    let mut k: usize = 0;
    let n = buf.len();
    assert(buf@.subrange(0, n as int) =~= buf@);
    assert(emitted@ + resolve(buf@).0 =~= resolve(buf@).0);
    loop
        invariant
            n == buf@.len(),
            k <= n,
            resolve(buf@) == (emitted@ + resolve(buf@.subrange(k as int, n as int)).0,
                resolve(buf@.subrange(k as int, n as int)).1),
        decreases n - k,
    {
        let rest = slice_chars(buf, k, n);
        if k == n {
            assert(resolve(rest@) == (Seq::<(char, Option<char>)>::empty(), Seq::<char>::empty()));
            assert(emitted@ + Seq::<(char, Option<char>)>::empty() =~= emitted@);
            return (emitted, rest);
        }
        match lookup_rule(rest.as_slice()) {
            Some(out) => {
                let ghost e0 = emitted@;
                let mut t: usize = 0;
                while t < out.len()
                    invariant
                        t <= out@.len(),
                        emitted@ == e0 + plain(out@.take(t as int)),
                    decreases out@.len() - t,
                {
                    emitted.push((out[t], None));
                    t = t + 1;
                    assert(plain(out@.take(t as int)) =~= plain(out@.take(t - 1)).push((out@[t - 1], None::<char>)));
                    assert(emitted@ =~= e0 + plain(out@.take(t as int)));
                }
                assert(out@.take(out@.len() as int) =~= out@);
                return (emitted, Vec::new());
            },
            None => {},
        }
        if consonant_prefix(rest.as_slice()) {
            assert(emitted@ + Seq::<(char, Option<char>)>::empty() =~= emitted@);
            return (emitted, rest);
        }
        let c0 = buf[k];
        let ghost old_e = emitted@;
        assert(rest@.drop_first() =~= buf@.subrange(k + 1, n as int));
        if k + 1 < n && buf[k + 1] == c0 && is_consonant_key_exec(c0) && c0 != 'n' && c0 != 'x' && c0 != 'l' {
            emitted.push(('\u{3063}', Some(c0)));
        } else if k + 1 < n && c0 == 'n' {
            emitted.push(('\u{3093}', Some('n')));
        } else {
            emitted.push(pass_through_exec(c0));
        }
        k = k + 1;
        assert(emitted@ + resolve(buf@.subrange(k as int, n as int)).0
            =~= old_e + resolve(rest@).0);
    }
}

/// Settle pending keys: a lone `n` becomes `ん`, anything else is kept as
/// typed.
pub fn settle_keys(live: &[char]) -> (r: Vec<(char, Option<char>)>)
    ensures
        r@ == settle(live@),
{
    if live.len() == 1 && live[0] == 'n' {
        let v: Vec<(char, Option<char>)> = vec![('\u{3093}', None)];
        assert(live@ =~= seq!['n']);
        assert(v@ =~= settle(live@));
        return v;
    }
    assert(live@ != seq!['n']);
    let mut r: Vec<(char, Option<char>)> = Vec::new();
    let mut i: usize = 0;
    while i < live.len()
        invariant
            i <= live@.len(),
            r@ == live@.take(i as int).map_values(|c: char| pass_through(c)),
        decreases live@.len() - i,
    {
        r.push(pass_through_exec(live[i]));
        i = i + 1;
        assert(r@ =~= live@.take(i as int).map_values(|c: char| pass_through(c)));
    }
    assert(live@.take(live@.len() as int) =~= live@);
    r
}

// ---------------------------------------------------------------------
// Laws of the reader
// ---------------------------------------------------------------------

/// Keys never vanish: a non-empty run of keys emits something or stays
/// pending.
pub proof fn lemma_resolve_nonempty(buf: Seq<char>)
    requires
        buf.len() > 0,
    ensures
        resolve(buf).0.len() + resolve(buf).1.len() > 0,
{
    if spec_rule(buf) is Some {
        let (a, b) = rule_codes(buf);
        assert(spec_rule(buf)->0.len() > 0);
    }
}

/// Law: every consonant prefix can still be completed into a rule.
pub proof fn law_consonant_prefix_completes(p: Seq<char>)
    requires
        is_consonant_prefix(p),
    ensures
        spec_rule(p.push('u')) is Some || spec_rule(p.push('a')) is Some,
{
    let pu = p.push('u');
    let pa = p.push('a');
    assert(pu[pu.len() - 1] == 'u');
    assert(pa[pa.len() - 1] == 'a');
    if p.len() == 1 {
        assert(pu[0] == p[0]);
    } else if p.len() == 2 {
        assert(pu[0] == p[0] && pu[1] == p[1]);
        assert(pa[0] == p[0] && pa[1] == p[1]);
    } else if p.len() == 3 {
        assert(pu[0] == p[0] && pu[1] == p[1] && pu[2] == p[2]);
    }
}

/// Law: every proper prefix of a rule's keys is a consonant prefix, so the
/// reader never gives up on keys that could still complete a rule.
pub proof fn law_rule_prefixes_wait(key: Seq<char>, n: int)
    requires
        spec_rule(key) is Some,
        0 <= n < key.len(),
    ensures
        is_consonant_prefix(key.take(n)),
{
    let p = key.take(n);
    if n >= 1 {
        assert(p[0] == key[0]);
    }
    if n >= 2 {
        assert(p[1] == key[1]);
    }
    if n >= 3 {
        assert(p[2] == key[2]);
    }
    if key.len() == 1 {
        assert(p =~= Seq::<char>::empty());
    }
}

/// Law: the keys the reader leaves pending can always still grow into a
/// rule.
pub proof fn law_pending_is_prefix(buf: Seq<char>)
    ensures
        is_consonant_prefix(resolve(buf).1),
    decreases buf.len(),
{
    if buf.len() > 0 && spec_rule(buf) is None && !is_consonant_prefix(buf) {
        law_pending_is_prefix(buf.drop_first());
    }
}

/// Resolving never yields more characters than twice the keys, and the
/// pending keys are never more than the keys given.
pub proof fn lemma_resolve_len(buf: Seq<char>)
    ensures
        resolve(buf).0.len() <= 2 * buf.len(),
        resolve(buf).1.len() <= buf.len(),
    decreases buf.len(),
{
    if buf.len() > 0 && spec_rule(buf) is None && !is_consonant_prefix(buf) {
        lemma_resolve_len(buf.drop_first());
    }
}

/// Consonant prefixes are at most three keys long.
pub proof fn lemma_prefix_len(p: Seq<char>)
    requires
        is_consonant_prefix(p),
    ensures
        p.len() <= 3,
{
}

} // verus!
