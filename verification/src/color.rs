//! Presence colors. A user's color is a deterministic function of the user
//! id against a fixed sixteen-entry palette; collisions inside one device are
//! resolved by hash-ordered probing, and when every palette entry is taken an
//! additive perturbation of the preferred color is used.

use vstd::prelude::*;
use vstd::string::StringSliceAdditionalSpecFns;

verus! {

/// How many colors the palette holds.
pub const PALETTE_SIZE: usize = 16;

/// The palette entry at `i`.
pub open spec fn spec_palette(i: int) -> Seq<char> {
    if i == 0 { "#FF6B6B"@ }
    else if i == 1 { "#4ECDC4"@ }
    else if i == 2 { "#45B7D1"@ }
    else if i == 3 { "#96CEB4"@ }
    else if i == 4 { "#FFEAA7"@ }
    else if i == 5 { "#DDA0DD"@ }
    else if i == 6 { "#98D8C8"@ }
    else if i == 7 { "#F7DC6F"@ }
    else if i == 8 { "#BB8FCE"@ }
    else if i == 9 { "#85C1E9"@ }
    else if i == 10 { "#F8C471"@ }
    else if i == 11 { "#82E0AA"@ }
    else if i == 12 { "#F1948A"@ }
    else if i == 13 { "#AED6F1"@ }
    else if i == 14 { "#A9DFBF"@ }
    else { "#F9E79F"@ }
}

/// The palette entry at `i`, executably.
pub fn palette_color(i: usize) -> (r: String)
    requires
        i < PALETTE_SIZE,
    ensures
        r@ == spec_palette(i as int),
{
    if i == 0 { "#FF6B6B".to_owned() }
    else if i == 1 { "#4ECDC4".to_owned() }
    else if i == 2 { "#45B7D1".to_owned() }
    else if i == 3 { "#96CEB4".to_owned() }
    else if i == 4 { "#FFEAA7".to_owned() }
    else if i == 5 { "#DDA0DD".to_owned() }
    else if i == 6 { "#98D8C8".to_owned() }
    else if i == 7 { "#F7DC6F".to_owned() }
    else if i == 8 { "#BB8FCE".to_owned() }
    else if i == 9 { "#85C1E9".to_owned() }
    else if i == 10 { "#F8C471".to_owned() }
    else if i == 11 { "#82E0AA".to_owned() }
    else if i == 12 { "#F1948A".to_owned() }
    else if i == 13 { "#AED6F1".to_owned() }
    else if i == 14 { "#A9DFBF".to_owned() }
    else { "#F9E79F".to_owned() }
}

/// The FNV-1a hash of a byte run.
pub open spec fn spec_fnv_hash(s: Seq<u8>) -> u32
    decreases s.len(),
{
    if s.len() == 0 {
        2166136261u32
    } else {
        u32::wrapping_mul(spec_fnv_hash(s.drop_last()) ^ (s.last() as u32), 16777619u32)
    }
}

/// FNV-1a, for spreading user ids over the palette.
pub fn fnv_hash(input: &str) -> (r: u32)
    ensures
        r == spec_fnv_hash(input.spec_bytes()),
{
    let bytes = input.as_bytes();
    let mut hash: u32 = 2166136261;
    let mut i: usize = 0;
    while i < bytes.len()
        invariant
            i <= bytes@.len(),
            bytes@ == input.spec_bytes(),
            hash == spec_fnv_hash(bytes@.take(i as int)),
        decreases bytes@.len() - i,
    {
        proof {
            assert(bytes@.take(i + 1).drop_last() =~= bytes@.take(i as int));
            assert(bytes@.take(i + 1).last() == bytes@[i as int]);
        }
        hash = (hash ^ (bytes[i] as u32)).wrapping_mul(16777619);
        i += 1;
    }
    proof {
        assert(bytes@.take(bytes@.len() as int) =~= bytes@);
    }
    hash
}

/// Whether some entry of `colors` reads as `needle`.
pub open spec fn contains_color(colors: Seq<String>, needle: Seq<char>) -> bool {
    exists|i: int| 0 <= i < colors.len() && colors[i]@ == needle
}

/// Membership of a color in a color list, executably.
pub fn color_taken(colors: &Vec<String>, needle: &str) -> (r: bool)
    ensures
        r == contains_color(colors@, needle@),
{
    let mut i: usize = 0;
    while i < colors.len()
        invariant
            i <= colors@.len(),
            forall|j: int| 0 <= j < i ==> colors@[j]@ != needle@,
        decreases colors@.len() - i,
    {
        if crate::strutil::str_eq(colors[i].as_str(), needle) {
            return true;
        }
        i += 1;
    }
    false
}

/// The first probe offset whose palette entry is free, if any: the preferred
/// index is tried first, then the following entries in palette order.
pub open spec fn spec_free_offset(primary: int, existing: Seq<String>, k: int) -> Option<int>
    decreases PALETTE_SIZE - k when 0 <= k <= PALETTE_SIZE
{
    if k >= PALETTE_SIZE {
        None
    } else if !contains_color(existing, spec_palette((primary + k) % (PALETTE_SIZE as int))) {
        Some(k)
    } else {
        spec_free_offset(primary, existing, k + 1)
    }
}

/// The color the probing rule assigns: the first free palette entry in
/// hash order, or the perturbation fallback when all sixteen are taken.
pub open spec fn spec_user_color(user: Seq<u8>, existing: Seq<String>) -> Seq<char> {
    let primary = (spec_fnv_hash(user) as int) % (PALETTE_SIZE as int);
    match spec_free_offset(primary, existing, 0) {
        Some(k) => spec_palette((primary + k) % (PALETTE_SIZE as int)),
        None => spec_color_variation(spec_palette(primary), existing.len() as int),
    }
}

/// Assign a color to a user: deterministic in the user id, avoiding the
/// colors already in use where the palette allows.
pub fn generate_user_color(user_id: &str, existing_colors: &Vec<String>) -> (r: String)
    ensures
        r@ == spec_user_color(user_id.spec_bytes(), existing_colors@),
{
    let hash = fnv_hash(user_id);
    let primary: usize = (hash as usize) % PALETTE_SIZE;
    let mut k: usize = 0;
    while k < PALETTE_SIZE
        invariant
            0 <= k <= PALETTE_SIZE,
            primary < PALETTE_SIZE,
            primary == (spec_fnv_hash(user_id.spec_bytes()) as int) % (PALETTE_SIZE as int),
            spec_free_offset(primary as int, existing_colors@, 0)
                == spec_free_offset(primary as int, existing_colors@, k as int),
        decreases PALETTE_SIZE - k,
    {
        let candidate = palette_color((primary + k) % PALETTE_SIZE);
        if !color_taken(existing_colors, candidate.as_str()) {
            return candidate;
        }
        k += 1;
    }
    // All sixteen are taken: perturb the preferred color.
    let preferred = palette_color(primary);
    create_color_variation(preferred.as_str(), existing_colors.len())
}

/// The value of one hexadecimal digit, or -1 for any other character.
pub open spec fn hex_digit_val(b: u8) -> int {
    if 48 <= b <= 57 { b - 48 }
    else if 65 <= b <= 70 { b - 55 }
    else if 97 <= b <= 102 { b - 87 }
    else { -1 }
}

/// Whether the bytes read as `#` followed by six hexadecimal digits.
pub open spec fn is_hex_color(s: Seq<u8>) -> bool {
    s.len() == 7 && s[0] == 35 && forall|i: int| 1 <= i < 7 ==> hex_digit_val(s[i]) >= 0
}

/// One color channel of a well-formed hex color: the two digits at `i`.
pub open spec fn channel_at(s: Seq<u8>, i: int) -> int {
    hex_digit_val(s[i]) * 16 + hex_digit_val(s[i + 1])
}

/// The upper-case hexadecimal digit for a value below sixteen.
pub open spec fn hex_char(d: int) -> char {
    if d == 0 { '0' } else if d == 1 { '1' } else if d == 2 { '2' }
    else if d == 3 { '3' } else if d == 4 { '4' } else if d == 5 { '5' }
    else if d == 6 { '6' } else if d == 7 { '7' } else if d == 8 { '8' }
    else if d == 9 { '9' } else if d == 10 { 'A' } else if d == 11 { 'B' }
    else if d == 12 { 'C' } else if d == 13 { 'D' } else if d == 14 { 'E' }
    else { 'F' }
}

/// One perturbed channel: shifted by the variation amount, wrapped at 256.
pub open spec fn perturbed(c: int, n: int) -> int {
    (c + (n % 8) * 8) % 256
}

/// The perturbation of a well-formed `#RRGGBB` color by the variation
/// factor `n`: each channel shifted by `(n % 8) * 8` modulo 256, rendered in
/// upper case. A malformed color comes back unchanged.
pub open spec fn spec_color_variation(base: Seq<char>, n: int) -> Seq<char> {
    let bytes = base.map_values(|c: char| c as u8);
    if is_hex_color(bytes) && vstd::utf8::is_ascii_chars(base) {
        let r = perturbed(channel_at(bytes, 1), n);
        let g = perturbed(channel_at(bytes, 3), n);
        let b = perturbed(channel_at(bytes, 5), n);
        seq![
            '#',
            hex_char(r / 16), hex_char(r % 16),
            hex_char(g / 16), hex_char(g % 16),
            hex_char(b / 16), hex_char(b % 16),
        ]
    } else {
        base
    }
}

/// The hexadecimal digit for a value below sixteen, as a one-character
/// string slice.
fn hex_str_of(d: u8) -> (r: &'static str)
    requires
        d < 16,
    ensures
        r@ =~= seq![hex_char(d as int)],
{
    proof {
        reveal_strlit("0"); reveal_strlit("1"); reveal_strlit("2");
        reveal_strlit("3"); reveal_strlit("4"); reveal_strlit("5");
        reveal_strlit("6"); reveal_strlit("7"); reveal_strlit("8");
        reveal_strlit("9"); reveal_strlit("A"); reveal_strlit("B");
        reveal_strlit("C"); reveal_strlit("D"); reveal_strlit("E");
        reveal_strlit("F");
    }
    if d == 0 { "0" } else if d == 1 { "1" } else if d == 2 { "2" }
    else if d == 3 { "3" } else if d == 4 { "4" } else if d == 5 { "5" }
    else if d == 6 { "6" } else if d == 7 { "7" } else if d == 8 { "8" }
    else if d == 9 { "9" } else if d == 10 { "A" } else if d == 11 { "B" }
    else if d == 12 { "C" } else if d == 13 { "D" } else if d == 14 { "E" }
    else { "F" }
}

/// The value of one hexadecimal digit byte, executably.
fn hex_val_of(b: u8) -> (r: Option<u8>)
    ensures
        match r {
            Some(v) => hex_digit_val(b) == v as int && v < 16,
            None => hex_digit_val(b) < 0,
        },
{
    if 48 <= b && b <= 57 { Some(b - 48) }
    else if 65 <= b && b <= 70 { Some(b - 55) }
    else if 97 <= b && b <= 102 { Some(b - 87) }
    else { None }
}

/// Perturb a `#RRGGBB` color by a variation factor; a color that does not
/// parse comes back unchanged.
pub fn create_color_variation(base_color: &str, variation_factor: usize) -> (r: String)
    ensures
        r@ == spec_color_variation(base_color@, variation_factor as int),
{
    let ghost base = base_color@;
    let ghost gbytes = base.map_values(|c: char| c as u8);
    if !base_color.is_ascii() {
        return base_color.to_owned();
    }
    proof {
        vstd::string::is_ascii_spec_bytes(base_color);
        assert(base_color.spec_bytes() =~= gbytes);
    }
    let bytes = base_color.as_bytes();
    if bytes.len() != 7 {
        return base_color.to_owned();
    }
    if bytes[0] != 35 {
        return base_color.to_owned();
    }
    let c1 = hex_val_of(bytes[1]);
    let c2 = hex_val_of(bytes[2]);
    let c3 = hex_val_of(bytes[3]);
    let c4 = hex_val_of(bytes[4]);
    let c5 = hex_val_of(bytes[5]);
    let c6 = hex_val_of(bytes[6]);
    match (c1, c2, c3, c4, c5, c6) {
        (Some(h1), Some(h2), Some(h3), Some(h4), Some(h5), Some(h6)) => {
            let rch: u16 = h1 as u16 * 16 + h2 as u16;
            let gch: u16 = h3 as u16 * 16 + h4 as u16;
            let bch: u16 = h5 as u16 * 16 + h6 as u16;
            let mf: u16 = ((variation_factor % 8) * 8) as u16;
            let rm: u16 = (rch + mf) % 256;
            let gm: u16 = (gch + mf) % 256;
            let bm: u16 = (bch + mf) % 256;
            let mut out = String::new();
            proof {
                reveal_strlit("#");
            }
            out.append("#");
            out.append(hex_str_of((rm / 16) as u8));
            out.append(hex_str_of((rm % 16) as u8));
            out.append(hex_str_of((gm / 16) as u8));
            out.append(hex_str_of((gm % 16) as u8));
            out.append(hex_str_of((bm / 16) as u8));
            out.append(hex_str_of((bm % 16) as u8));
            proof {
                assert(is_hex_color(gbytes));
                assert(out@ =~= spec_color_variation(base, variation_factor as int));
            }
            out
        }
        _ => {
            proof {
                assert(!is_hex_color(gbytes));
            }
            base_color.to_owned()
        }
    }
}

} // verus!
