use vstd::prelude::*;
use crate::scan::{
    ByteClass, COLON, DIGIT_ZERO, LOWER_C, LOWER_X, QUOTE, SLASH, SPACE, byte_at, byte_at_exec, in_class,
    is_digit, lemma_run_end_stops, space_len, space_len_exec, lemma_run_members, run_end, run_end_exec,
};

verus! {

/// The text that opens a paper-size declaration, up to the fixed start of its
/// name: `*PaperDimension Br` in ASCII.
pub open spec fn declaration_key() -> Seq<u8> {
    seq![
        42, 80, 97, 112, 101, 114, 68, 105, 109, 101, 110, 115, 105, 111, 110, 32, 66, 114,
    ]
}

fn key_at(t: &[u8], i: usize) -> (r: bool)
    ensures
        r == (i + declaration_key().len() <= t@.len() && t@.subrange(
            i as int,
            i + declaration_key().len(),
        ) == declaration_key()),
{
    let key: [u8; 18] = [
        42, 80, 97, 112, 101, 114, 68, 105, 109, 101, 110, 115, 105, 111, 110, 32, 66, 114,
    ];
    assert(key@ =~= declaration_key());
    if t.len() < 18 || i > t.len() - 18 {
        return false;
    }
    let n: usize = t.len();
    let mut j: usize = 0;
    while j < 18
        invariant
            j <= 18,
            n == t@.len(),
            i + 18 <= t@.len(),
            key@ == declaration_key(),
            forall|m: int| 0 <= m < j ==> t@[i + m] == key@[m],
        decreases 18 - j,
    {
        if t[i + j] != key[j] {
            assert(t@.subrange(i as int, i + 18)[j as int] != declaration_key()[j as int]);
            return false;
        }
        j = j + 1;
    }
    assert(t@.subrange(i as int, i + 18) =~= declaration_key());
    true
}

/// Integer parts of a declared height are read up to this many points; a
/// larger one is read as this value. No such height can be chosen, before the
/// cap or after it: every target that `u64` micrometres express lies under
/// 6 * 10^16 points, so such a height lies further than the seeded distance.
pub const HEIGHT_CAP_PT: u128 = 100000000000000000;

/// Declared heights are read in units of 10^-18 point: eighteen decimals, far
/// below what a double-precision height tells apart. Further decimals are dropped.
pub const HEIGHT_UNITS_PER_PT: u128 = 1000000000000000000;

/// The number of decimals of a declared height that are read.
pub const HEIGHT_DECIMALS: usize = 18;

pub open spec fn pow10(n: nat) -> int
    decreases n,
{
    if n == 0 {
        1
    } else {
        10 * pow10((n - 1) as nat)
    }
}

/// The value of a run of decimal digits, saturating at the cap.
pub open spec fn digits_value(s: Seq<u8>) -> int
    decreases s.len(),
{
    if s.len() == 0 {
        0
    } else {
        let v = 10 * digits_value(s.drop_last()) + (s.last() - DIGIT_ZERO);
        if v < HEIGHT_CAP_PT {
            v
        } else {
            HEIGHT_CAP_PT as int
        }
    }
}

/// Whether the `[0-9.]+` token `t[s..e]` is a number: at most one dot and at
/// least one digit.
pub open spec fn is_number(t: Seq<u8>, s: int, e: int) -> bool {
    let d = run_end(t, s, ByteClass::Digit);
    if d >= e {
        e > s
    } else {
        run_end(t, d + 1, ByteClass::Digit) >= e && e - s > 1
    }
}

pub open spec fn fraction_digit(t: Seq<u8>, j: int, e: int) -> int {
    if j < e {
        t[j] - DIGIT_ZERO
    } else {
        0
    }
}

/// The first `n` decimals that start at `j`, before `e`, as an integer of `n`
/// digits; decimals that are not there count as zero.
pub open spec fn fraction_value(t: Seq<u8>, j: int, e: int, n: nat) -> int
    decreases n,
{
    if n == 0 {
        0
    } else {
        10 * fraction_value(t, j, e, (n - 1) as nat) + fraction_digit(t, j + n - 1, e)
    }
}

/// The number `t[s..e]` in units of 10^-18 point.
pub open spec fn height_units(t: Seq<u8>, s: int, e: int) -> int {
    let d = run_end(t, s, ByteClass::Digit);
    digits_value(t.subrange(s, d)) * HEIGHT_UNITS_PER_PT + fraction_value(
        t,
        d + 1,
        e,
        HEIGHT_DECIMALS as nat,
    )
}

fn digits_value_exec(t: &[u8], s: usize, e: usize) -> (r: u128)
    requires
        s <= e <= t@.len(),
        forall|j: int| s <= j < e ==> is_digit(#[trigger] t@[j]),
    ensures
        r as int == digits_value(t@.subrange(s as int, e as int)),
        r <= HEIGHT_CAP_PT,
{
    let mut v: u128 = 0;
    let mut k: usize = s;
    assert(t@.subrange(s as int, s as int).len() == 0);
    while k < e
        invariant
            s <= k <= e <= t@.len(),
            forall|j: int| s <= j < e ==> is_digit(#[trigger] t@[j]),
            v as int == digits_value(t@.subrange(s as int, k as int)),
            v <= HEIGHT_CAP_PT,
        decreases e - k,
    {
        assert(t@.subrange(s as int, k + 1).drop_last() =~= t@.subrange(s as int, k as int));
        assert(is_digit(t@[k as int]));
        let w: u128 = 10 * v + (t[k] - DIGIT_ZERO) as u128;
        if w < HEIGHT_CAP_PT {
            v = w;
        } else {
            v = HEIGHT_CAP_PT;
        }
        k = k + 1;
    }
    v
}

fn fraction_digit_exec(t: &[u8], j: usize, e: usize) -> (r: u128)
    requires
        e <= t@.len(),
        j < e ==> is_digit(t@[j as int]),
    ensures
        r as int == fraction_digit(t@, j as int, e as int),
        r <= 9,
{
    if j < e {
        (t[j] - DIGIT_ZERO) as u128
    } else {
        0
    }
}

/// Reads the height token `t[s..e]`, of bytes of `[0-9.]` followed by a
/// non-number byte, in units of 10^-18 point.
fn read_height(t: &[u8], s: usize, e: usize) -> (r: Option<u128>)
    requires
        s <= e < t@.len(),
        forall|j: int| s <= j < e ==> in_class(ByteClass::NumberByte, #[trigger] t@[j]),
        !in_class(ByteClass::NumberByte, t@[e as int]),
    ensures
        r is Some <==> is_number(t@, s as int, e as int),
        r matches Some(v) ==> v as int == height_units(t@, s as int, e as int),
        r matches Some(v) ==> v < (HEIGHT_CAP_PT + 1) * HEIGHT_UNITS_PER_PT,
{
    let n: usize = t.len();
    let d = run_end_exec(t, s, ByteClass::Digit);
    proof {
        lemma_run_end_stops(t@, s as int, e as int, ByteClass::Digit);
    }
    if d >= e {
        if e == s {
            return None;
        }
    } else {
        let d2 = run_end_exec(t, d + 1, ByteClass::Digit);
        if d2 < e || e - s <= 1 {
            return None;
        }
    }
    proof {
        assert forall|j: int| s <= j < d implies is_digit(#[trigger] t@[j]) by {
            lemma_run_members(t@, s as int, j, ByteClass::Digit);
        }
        if d < e {
            lemma_run_end_stops(t@, d + 1, e as int, ByteClass::Digit);
            assert forall|j: int| d + 1 <= j < e implies is_digit(#[trigger] t@[j]) by {
                lemma_run_members(t@, d + 1, j, ByteClass::Digit);
            }
        }
    }
    let int_part = digits_value_exec(t, s, d);
    let mut fraction: u128 = 0;
    let mut scale: u128 = 1;
    let mut m: usize = 0;
    while m < HEIGHT_DECIMALS
        invariant
            m <= HEIGHT_DECIMALS,
            d <= e < t@.len(),
            n == t@.len(),
            d < e ==> forall|j: int| d + 1 <= j < e ==> is_digit(#[trigger] t@[j]),
            fraction as int == fraction_value(t@, d + 1, e as int, m as nat),
            scale as int == pow10(m as nat),
            fraction < scale,
            scale <= HEIGHT_UNITS_PER_PT,
        decreases HEIGHT_DECIMALS - m,
    {
        proof {
            reveal_with_fuel(pow10, 19);
        }
        assert(pow10(m as nat) <= pow10(17)) by {
            lemma_pow10_monotone(m as nat, 17);
        }
        let j: usize = if e - d > m + 1 {
            d + 1 + m
        } else {
            e
        };
        let digit = fraction_digit_exec(t, j, e);
        fraction = 10 * fraction + digit;
        scale = 10 * scale;
        m = m + 1;
    }
    proof {
        reveal_with_fuel(pow10, 19);
    }
    assert(int_part * HEIGHT_UNITS_PER_PT <= HEIGHT_CAP_PT * HEIGHT_UNITS_PER_PT) by (nonlinear_arith)
        requires int_part <= HEIGHT_CAP_PT;
    Some(int_part * HEIGHT_UNITS_PER_PT + fraction)
}

proof fn lemma_pow10_monotone(a: nat, b: nat)
    requires
        a <= b,
    ensures
        pow10(a) <= pow10(b),
        pow10(a) >= 1,
    decreases b,
{
    if a < b {
        lemma_pow10_monotone(a, (b - 1) as nat);
    } else if a > 0 {
        lemma_pow10_monotone((a - 1) as nat, (a - 1) as nat);
    }
}

/// Whether the declaration key stands at position `i` of `t`.
pub open spec fn key_at_spec(t: Seq<u8>, i: int) -> bool {
    0 <= i && i + declaration_key().len() <= t.len() && t.subrange(i, i + declaration_key().len())
        == declaration_key()
}

/// The bytes `t[s..e]` read as ASCII characters.
pub open spec fn chars_of(t: Seq<u8>, s: int, e: int) -> Seq<char> {
    t.subrange(s, e).map_values(|b: u8| b as char)
}

/// The paper-size declaration that starts at position `i`, if one does: its
/// name and its declared height in units of 10^-18 point.
///
/// A declaration reads `*PaperDimension <name>/<synonym>:<ws>"<width> <height>"`,
/// where `<name>` is `Br` followed by bytes from `A` to `z` or digits, `<synonym>`
/// is `c`, digits, `x`, digits, `<ws>` is one whitespace character (`space_len`,
/// in UTF-8), and the two
/// dimensions are runs of digits and dots, of which the height must be a number.
/// A declaration holds no `*` byte after its first, so declarations never overlap.
pub open spec fn entry_at(t: Seq<u8>, i: int) -> Option<(Seq<char>, int)> {
    let name_end = run_end(t, i + 18, ByteClass::NameByte);
    let x = run_end(t, name_end + 2, ByteClass::Digit);
    let colon = run_end(t, x + 1, ByteClass::Digit);
    let sl = space_len(t, colon + 1);
    let w_end = run_end(t, colon + 2 + sl, ByteClass::NumberByte);
    let h_end = run_end(t, w_end + 1, ByteClass::NumberByte);
    if key_at_spec(t, i) && byte_at(t, name_end, SLASH) && byte_at(t, name_end + 1, LOWER_C) && x
        > name_end + 2 && byte_at(t, x, LOWER_X) && colon > x + 1 && byte_at(t, colon, COLON)
        && sl > 0 && byte_at(t, colon + 1 + sl, QUOTE) && w_end > colon + 2 + sl && byte_at(t, w_end, SPACE) && byte_at(t, h_end, QUOTE) && is_number(
        t,
        w_end + 1,
        h_end,
    ) {
        Some((chars_of(t, i + 16, name_end), height_units(t, w_end + 1, h_end)))
    } else {
        None
    }
}

/// Finds the declaration at position `i`: the start and end of its name, and
/// its height in units of 10^-18 point.
fn entry_at_exec(t: &[u8], i: usize) -> (r: Option<(usize, usize, u128)>)
    ensures
        match entry_at(t@, i as int) {
            None => r is None,
            Some(e) => r matches Some((s, n, h)) && s <= n <= t@.len() && chars_of(
                t@,
                s as int,
                n as int,
            ) == e.0 && h as int == e.1,
        },
        r matches Some((_, _, h)) ==> h < (HEIGHT_CAP_PT + 1) * HEIGHT_UNITS_PER_PT,
{
    let len: usize = t.len();
    if !key_at(t, i) {
        return None;
    }
    let name_end = run_end_exec(t, i + 18, ByteClass::NameByte);
    if !(byte_at_exec(t, name_end, SLASH) && byte_at_exec(t, name_end + 1, LOWER_C)) {
        return None;
    }
    let x = run_end_exec(t, name_end + 2, ByteClass::Digit);
    if !(x > name_end + 2 && byte_at_exec(t, x, LOWER_X)) {
        return None;
    }
    let colon = run_end_exec(t, x + 1, ByteClass::Digit);
    if !(colon > x + 1 && byte_at_exec(t, colon, COLON)) {
        return None;
    }
    let sl = space_len_exec(t, colon + 1);
    if !(sl > 0 && byte_at_exec(t, colon + 1 + sl, QUOTE)) {
        return None;
    }
    let w_end = run_end_exec(t, colon + 2 + sl, ByteClass::NumberByte);
    if !(w_end > colon + 2 + sl && byte_at_exec(t, w_end, SPACE)) {
        return None;
    }
    let h_end = run_end_exec(t, w_end + 1, ByteClass::NumberByte);
    if !byte_at_exec(t, h_end, QUOTE) {
        return None;
    }
    proof {
        assert forall|j: int| w_end + 1 <= j < h_end implies in_class(
            ByteClass::NumberByte,
            #[trigger] t@[j],
        ) by {
            lemma_run_members(t@, w_end + 1, j, ByteClass::NumberByte);
        }
    }
    match read_height(t, w_end + 1, h_end) {
        None => None,
        Some(h) => Some((i + 16, name_end, h)),
    }
}

/// The declarations of a descriptor from position `i` on, in order.
pub open spec fn entries_from(t: Seq<u8>, i: int) -> Seq<(Seq<char>, int)>
    decreases t.len() - i,
{
    if i < 0 || i >= t.len() {
        Seq::empty()
    } else {
        match entry_at(t, i) {
            Some(e) => seq![e] + entries_from(t, i + 1),
            None => entries_from(t, i + 1),
        }
    }
}

/// The declarations of a descriptor, in order.
pub open spec fn entries(t: Seq<u8>) -> Seq<(Seq<char>, int)> {
    entries_from(t, 0)
}

/// The paper name used when the descriptor offers nothing closer.
pub const DEFAULT_PAPER_NAME: &'static str = "BrL063E01E745F9";

/// The distance that a declaration must beat to replace the default name, in points.
pub const SEED_DISTANCE_PT: u128 = 5000;

/// How far a declared height (units of 10^-18 point) lies from a target height
/// (micrometres), exactly, in units of 10^-18 / 3175 point: a micrometre is
/// 72 / 25400 = 9 / 3175 points.
pub open spec fn distance(target_um: int, height: int) -> int {
    let d = 9 * HEIGHT_UNITS_PER_PT * target_um - 3175 * height;
    if d < 0 {
        -d
    } else {
        d
    }
}

pub open spec fn seed_distance() -> int {
    3175 * HEIGHT_UNITS_PER_PT * SEED_DISTANCE_PT
}

/// The nearest of `es` to the target, starting from `name` at distance `dist`;
/// a later declaration replaces the current one only when strictly closer.
pub open spec fn nearest(es: Seq<(Seq<char>, int)>, target_um: int, name: Seq<char>, dist: int) -> Seq<
    char,
>
    decreases es.len(),
{
    if es.len() == 0 {
        name
    } else {
        let d = distance(target_um, es[0].1);
        if d < dist {
            nearest(es.drop_first(), target_um, es[0].0, d)
        } else {
            nearest(es.drop_first(), target_um, name, dist)
        }
    }
}

/// The paper name that a descriptor gives for a target height in micrometres.
pub open spec fn resolved_name(t: Seq<u8>, target_um: int) -> Seq<char> {
    nearest(entries(t), target_um, DEFAULT_PAPER_NAME@, seed_distance())
}

pub open spec fn current_name(t: Seq<u8>, best: Option<(usize, usize)>) -> Seq<char> {
    match best {
        None => DEFAULT_PAPER_NAME@,
        Some((s, e)) => chars_of(t, s as int, e as int),
    }
}

/// Copies the ASCII bytes `t[s..e]` into a string.
fn ascii_string(t: &[u8], s: usize, e: usize) -> (r: String)
    requires
        s <= e <= t@.len(),
    ensures
        r@ == chars_of(t@, s as int, e as int),
{
    let mut r = String::new();
    let mut k: usize = s;
    while k < e
        invariant
            s <= k <= e <= t@.len(),
            r@ == chars_of(t@, s as int, k as int),
        decreases e - k,
    {
        let c: char = t[k] as char;
        r.push(c);
        assert(chars_of(t@, s as int, k + 1) =~= chars_of(t@, s as int, k as int).push(c));
        k = k + 1;
    }
    r
}

/// The name of the declared paper size whose height lies nearest to
/// `height_um` micrometres, the first of equally near ones; the default name
/// where no declaration lies nearer than the seeded distance.
pub fn resolve_paper_name(height_um: u64, descriptor: &[u8]) -> (r: String)
    ensures
        r@ == resolved_name(descriptor@, height_um as int),
        descriptor@.len() == 0 ==> r@ == DEFAULT_PAPER_NAME@,
{
    let t = descriptor;
    assert(9 * HEIGHT_UNITS_PER_PT * (height_um as u128) <= 9 * HEIGHT_UNITS_PER_PT * 0xffff_ffff_ffff_ffffu128)
        by (nonlinear_arith);
    let target: u128 = 9 * HEIGHT_UNITS_PER_PT * (height_um as u128);
    let mut best: Option<(usize, usize)> = None;
    let mut best_dist: u128 = 3175 * HEIGHT_UNITS_PER_PT * SEED_DISTANCE_PT;
    let mut i: usize = 0;
    while i < t.len()
        invariant
            i <= t@.len(),
            target == 9 * HEIGHT_UNITS_PER_PT * height_um,
            best matches Some((s, e)) ==> s <= e <= t@.len(),
            resolved_name(t@, height_um as int) == nearest(
                entries_from(t@, i as int),
                height_um as int,
                current_name(t@, best),
                best_dist as int,
            ),
        decreases t@.len() - i,
    {
        match entry_at_exec(t, i) {
            None => {},
            Some((s, e, h)) => {
                let declared: u128 = 3175 * h;
                let d: u128 = if target < declared {
                    declared - target
                } else {
                    target - declared
                };
                assert(entries_from(t@, i as int).drop_first() == entries_from(t@, i + 1));
                if d < best_dist {
                    best = Some((s, e));
                    best_dist = d;
                }
            },
        }
        i = i + 1;
    }
    match best {
        None => DEFAULT_PAPER_NAME.to_owned(),
        Some((s, e)) => ascii_string(t, s, e),
    }
}

/// The paper name for a label `height_um` micrometres high, given the printer
/// driver's descriptor, or `None` where the descriptor could not be read: then
/// the default name.
pub fn page_size_attribute_for_height(height_um: u64, descriptor: Option<&[u8]>) -> (r: String)
    ensures
        r@ == match descriptor {
            None => DEFAULT_PAPER_NAME@,
            Some(t) => resolved_name(t@, height_um as int),
        },
        (descriptor is None || descriptor.unwrap()@.len() == 0) ==> r@ == DEFAULT_PAPER_NAME@,
{
    match descriptor {
        None => DEFAULT_PAPER_NAME.to_owned(),
        Some(t) => resolve_paper_name(height_um, t),
    }
}

/// Resolution depends on the descriptor text and the target height alone: the
/// same descriptor and height always give the same name.
pub proof fn lemma_resolution_deterministic(t1: Seq<u8>, t2: Seq<u8>, height_um: int)
    requires
        t1 == t2,
    ensures
        resolved_name(t1, height_um) == resolved_name(t2, height_um),
{
}

/// A descriptor that declares nothing resolves every height to the default name.
pub proof fn lemma_empty_descriptor_gives_default(t: Seq<u8>, height_um: int)
    requires
        entries(t).len() == 0,
    ensures
        resolved_name(t, height_um) == DEFAULT_PAPER_NAME@,
{
}

/// Whether declaration `k` of `es` is the first nearest to the target among
/// those nearer than `dist`.
pub open spec fn is_first_nearest(es: Seq<(Seq<char>, int)>, target_um: int, k: int, dist: int) -> bool {
    0 <= k < es.len() && distance(target_um, es[k].1) < dist && (forall|j: int|
        0 <= j < es.len() ==> distance(target_um, #[trigger] es[j].1) >= distance(target_um, es[k].1))
        && (forall|j: int| 0 <= j < k ==> distance(target_um, #[trigger] es[j].1) > distance(target_um, es[k].1))
}

proof fn lemma_nearest_choice(es: Seq<(Seq<char>, int)>, target_um: int, name: Seq<char>, dist: int)
    ensures
        (nearest(es, target_um, name, dist) == name && forall|j: int|
            0 <= j < es.len() ==> distance(target_um, #[trigger] es[j].1) >= dist) || exists|k: int|
            is_first_nearest(es, target_um, k, dist) && nearest(es, target_um, name, dist) == es[k].0,
    decreases es.len(),
{
    if es.len() > 0 {
        let rest = es.drop_first();
        let d0 = distance(target_um, es[0].1);
        if d0 < dist {
            lemma_nearest_choice(rest, target_um, es[0].0, d0);
            if nearest(rest, target_um, es[0].0, d0) == es[0].0 && forall|j: int|
                0 <= j < rest.len() ==> distance(target_um, #[trigger] rest[j].1) >= d0 {
                assert forall|j: int| 0 <= j < es.len() implies distance(target_um, #[trigger] es[j].1)
                    >= d0 by {
                    if j > 0 {
                        assert(es[j] == rest[j - 1]);
                    }
                }
                assert(is_first_nearest(es, target_um, 0, dist));
            } else {
                let k = choose|k: int|
                    is_first_nearest(rest, target_um, k, d0) && nearest(rest, target_um, es[0].0, d0)
                        == rest[k].0;
                assert forall|j: int| 0 <= j < es.len() implies distance(target_um, #[trigger] es[j].1)
                    >= distance(target_um, es[k + 1].1) by {
                    if j > 0 {
                        assert(es[j] == rest[j - 1]);
                    }
                }
                assert forall|j: int| 0 <= j < k + 1 implies distance(target_um, #[trigger] es[j].1)
                    > distance(target_um, es[k + 1].1) by {
                    if j > 0 {
                        assert(es[j] == rest[j - 1]);
                    }
                }
                assert(is_first_nearest(es, target_um, k + 1, dist));
            }
        } else {
            lemma_nearest_choice(rest, target_um, name, dist);
            if nearest(rest, target_um, name, dist) == name && forall|j: int|
                0 <= j < rest.len() ==> distance(target_um, #[trigger] rest[j].1) >= dist {
                assert forall|j: int| 0 <= j < es.len() implies distance(target_um, #[trigger] es[j].1)
                    >= dist by {
                    if j > 0 {
                        assert(es[j] == rest[j - 1]);
                    }
                }
            } else {
                let k = choose|k: int|
                    is_first_nearest(rest, target_um, k, dist) && nearest(rest, target_um, name, dist)
                        == rest[k].0;
                assert forall|j: int| 0 <= j < es.len() implies distance(target_um, #[trigger] es[j].1)
                    >= distance(target_um, es[k + 1].1) by {
                    if j > 0 {
                        assert(es[j] == rest[j - 1]);
                    }
                }
                assert forall|j: int| 0 <= j < k + 1 implies distance(target_um, #[trigger] es[j].1)
                    > distance(target_um, es[k + 1].1) by {
                    if j > 0 {
                        assert(es[j] == rest[j - 1]);
                    }
                }
                assert(is_first_nearest(es, target_um, k + 1, dist));
            }
        }
    }
}

/// The resolved name is that of the first declaration whose height lies
/// nearest to the target, where one lies nearer than the seeded distance; no
/// other lies nearer, and every earlier one lies further. Where none does, it
/// is the default name.
pub proof fn lemma_resolution_is_first_nearest(t: Seq<u8>, target_um: int)
    ensures
        (exists|k: int| is_first_nearest(entries(t), target_um, k, seed_distance()) && resolved_name(
            t,
            target_um,
        ) == entries(t)[k].0) || (resolved_name(t, target_um) == DEFAULT_PAPER_NAME@ && forall|j: int|
            0 <= j < entries(t).len() ==> distance(target_um, #[trigger] entries(t)[j].1)
                >= seed_distance()),
{
    lemma_nearest_choice(entries(t), target_um, DEFAULT_PAPER_NAME@, seed_distance());
}

} // verus!
