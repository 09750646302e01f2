//! AMD Radeon cards under `/sys/class/drm`: which entries are cards, which
//! cards are AMD's, and what setting a card's profile writes.
//!
//! The caller lists the directory, reads the vendor files and checks that the
//! parameter files exist; these functions decide from what it read.
use crate::text::{
    chars_from, chars_of, dec_digits, is_digit, parse_unsigned, parse_unsigned_chars, push_dec,
    starts_with, string_of, trim, trim_spec,
};
use vstd::prelude::*;
use vstd::seq_lib::group_to_multiset_ensures;

verus! {

/// AMD's PCI vendor ID.
pub const AMD_VENDOR_ID: u16 = 0x1002;

/// A hexadecimal digit, either case.
pub open spec fn is_hex_digit(c: char) -> bool {
    ('0' <= c <= '9') || ('a' <= c <= 'f') || ('A' <= c <= 'F')
}

pub open spec fn hex_value(c: char) -> int {
    if '0' <= c <= '9' {
        c as int - 48
    } else if 'a' <= c <= 'f' {
        c as int - 87
    } else {
        c as int - 55
    }
}

/// The value of a string of hexadecimal digits.
pub open spec fn hex_digits_value(s: Seq<char>) -> nat
    decreases s.len(),
{
    if s.len() == 0 {
        0
    } else {
        hex_digits_value(s.drop_last()) * 16 + (hex_value(s.last()) as nat)
    }
}

/// What `u16::from_str_radix(_, 16)` accepts: an optional `+`, then one or
/// more hexadecimal digits whose value fits.
pub open spec fn parse_hex_u16(s: Seq<char>) -> Option<nat> {
    let b = hex_body(s);
    if b.len() > 0 && (forall|i: int| 0 <= i < b.len() ==> is_hex_digit(#[trigger] b[i]))
        && hex_digits_value(b) <= 0xffff {
        Some(hex_digits_value(b))
    } else {
        None
    }
}

/// The digits after an optional leading `+`.
pub open spec fn hex_body(s: Seq<char>) -> Seq<char> {
    if s.len() > 0 && s[0] == '+' {
        s.subrange(1, s.len() as int)
    } else {
        s
    }
}

/// `s` with every leading copy of `prefix` removed.
pub open spec fn strip_all(s: Seq<char>, prefix: Seq<char>) -> Seq<char>
    decreases s.len(),
{
    if prefix.len() > 0 && starts_with(s, prefix) {
        strip_all(s.subrange(prefix.len() as int, s.len() as int), prefix)
    } else {
        s
    }
}

/// The vendor ID a vendor file gives: trimmed, every leading `0x` removed,
/// then every leading `0X`, read as hexadecimal.
pub open spec fn vendor_id_of(contents: Seq<char>) -> Option<nat> {
    parse_hex_u16(strip_all(strip_all(trim_spec(contents), "0x"@), "0X"@))
}

fn strip_all_chars(s: &Vec<char>, prefix: &Vec<char>) -> (r: Vec<char>)
    ensures
        r@ == strip_all(s@, prefix@),
    decreases s@.len(),
{
    if prefix.len() > 0 && crate::text::seq_starts_with(s, prefix) {
        let rest = chars_from(s, prefix.len());
        strip_all_chars(&rest, prefix)
    } else {
        let mut r: Vec<char> = Vec::new();
        let mut k: usize = 0;
        while k < s.len()
            invariant
                k <= s@.len(),
                r@ == s@.subrange(0, k as int),
            decreases s@.len() - k,
        {
            r.push(s[k]);
            k = k + 1;
            assert(r@ =~= s@.subrange(0, k as int));
        }
        assert(r@ =~= s@);
        r
    }
}

fn hex_digit_value(c: char) -> (d: u32)
    requires
        is_hex_digit(c),
    ensures
        d == hex_value(c),
        d < 16,
{
    if '0' <= c && c <= '9' {
        (c as u32) - 48
    } else if 'a' <= c && c <= 'f' {
        (c as u32) - 87
    } else {
        (c as u32) - 55
    }
}

proof fn lemma_hex_prefix_bound(s: Seq<char>, k: int)
    requires
        0 <= k <= s.len(),
        forall|i: int| 0 <= i < s.len() ==> is_hex_digit(#[trigger] s[i]),
    ensures
        hex_digits_value(s.subrange(0, k)) <= hex_digits_value(s),
    decreases s.len() - k,
{
    if k < s.len() {
        lemma_hex_prefix_bound(s, k + 1);
        let t = s.subrange(0, k + 1);
        assert(t.drop_last() =~= s.subrange(0, k));
        assert(0 <= hex_value(t.last()));
    } else {
        assert(s.subrange(0, k) =~= s);
    }
}

fn parse_hex_chars(v: &Vec<char>) -> (r: Option<u16>)
    ensures
        match parse_hex_u16(v@) {
            Some(n) => r == Some(n as u16),
            None => r is None,
        },
{
    let start: usize = if v.len() > 0 && v[0] == '+' {
        1
    } else {
        0
    };
    let ghost b = hex_body(v@);
    assert(b =~= v@.subrange(start as int, v@.len() as int));
    if start >= v.len() {
        return None;
    }
    let mut acc: u32 = 0;
    let mut k: usize = start;
    while k < v.len()
        invariant
            start <= k <= v@.len(),
            b == v@.subrange(start as int, v@.len() as int),
            b == hex_body(v@),
            forall|i: int| 0 <= i < k - start ==> is_hex_digit(#[trigger] b[i]),
            acc as nat == hex_digits_value(b.subrange(0, k - start)),
            acc <= 0xffff,
        decreases v@.len() - k,
    {
        let c = v[k];
        if !(('0' <= c && c <= '9') || ('a' <= c && c <= 'f') || ('A' <= c && c <= 'F')) {
            assert(!is_hex_digit(b[k - start]));
            return None;
        }
        let d = hex_digit_value(c);
        let ghost prefix = b.subrange(0, k + 1 - start);
        assert(prefix.drop_last() =~= b.subrange(0, k - start));
        assert(prefix.last() == c);
        let next: u32 = acc * 16 + d;
        if next > 0xffff {
            proof {
                if forall|i: int| 0 <= i < b.len() ==> is_hex_digit(#[trigger] b[i]) {
                    lemma_hex_prefix_bound(b, k + 1 - start);
                }
            }
            return None;
        }
        acc = next;
        k = k + 1;
    }
    assert(b.subrange(0, k - start) =~= b);
    Some(acc as u16)
}

/// The vendor ID in the contents of a PCI `vendor` file.
pub fn vendor_id(contents: &str) -> (r: Option<u16>)
    ensures
        match vendor_id_of(contents@) {
            Some(n) => r == Some(n as u16),
            None => r is None,
        },
{
    let t = trim(contents);
    let tv = chars_of(t.as_str());
    let lower = chars_of("0x");
    let upper = chars_of("0X");
    let a = strip_all_chars(&tv, &lower);
    let b = strip_all_chars(&a, &upper);
    parse_hex_chars(&b)
}

/// Whether a device is AMD's, from its vendor file (`None` when it could
/// not be read).
pub fn is_amd_vendor(contents: Option<&str>) -> (r: bool)
    ensures
        r == (contents matches Some(c) && vendor_id_of(c@) == Some(0x1002nat)),
{
    match contents {
        Some(c) => match vendor_id(c) {
            Some(id) => id == AMD_VENDOR_ID,
            None => false,
        },
        None => false,
    }
}

/// The card index a `/sys/class/drm` entry names: `cardN` with `N` a
/// `u8`; connectors such as `card0-DP-1` are not cards.
pub open spec fn card_index_of(name: Seq<char>) -> Option<nat> {
    if starts_with(name, "card"@) {
        let rest = name.subrange(4, name.len() as int);
        if rest.contains('-') {
            None
        } else {
            parse_unsigned(rest, 255)
        }
    } else {
        None
    }
}

/// The card index of a `/sys/class/drm` entry name.
pub fn card_index(name: &str) -> (r: Option<u8>)
    ensures
        match card_index_of(name@) {
            Some(n) => r == Some(n as u8),
            None => r is None,
        },
{
    let v = chars_of(name);
    let prefix = chars_of("card");
    proof {
        reveal_strlit("card");
    }
    if !crate::text::seq_starts_with(&v, &prefix) {
        return None;
    }
    let rest = chars_from(&v, 4);
    let mut k: usize = 0;
    while k < rest.len()
        invariant
            k <= rest@.len(),
            rest@ == name@.subrange(4, name@.len() as int),
            starts_with(name@, "card"@),
            forall|i: int| 0 <= i < k ==> rest@[i] != '-',
        decreases rest@.len() - k,
    {
        if rest[k] == '-' {
            assert(rest@.contains('-'));
            return None;
        }
        k = k + 1;
    }
    match parse_unsigned_chars(&rest, 255) {
        Some(n) => Some(n as u8),
        None => None,
    }
}

/// The card indices among the first `n` entry names, in listing order.
pub open spec fn card_indices_upto(names: Seq<Seq<char>>, n: int) -> Seq<u8>
    decreases n,
{
    if n <= 0 {
        Seq::empty()
    } else {
        card_indices_upto(names, n - 1) + match card_index_of(names[n - 1]) {
            Some(c) => seq![c as u8],
            None => Seq::empty(),
        }
    }
}

pub open spec fn sorted(s: Seq<u8>) -> bool {
    forall|i: int, j: int| 0 <= i <= j < s.len() ==> s[i] <= s[j]
}

pub open spec fn name_views(v: Seq<String>) -> Seq<Seq<char>> {
    v.map_values(|s: String| s@)
}

fn insert_sorted(v: &mut Vec<u8>, x: u8)
    requires
        sorted(old(v)@),
    ensures
        sorted(final(v)@),
        final(v)@.to_multiset() == old(v)@.to_multiset().insert(x),
{
    let mut p: usize = 0;
    while p < v.len() && v[p] <= x
        invariant
            *v == *old(v),
            p <= v@.len(),
            forall|k: int| 0 <= k < p ==> v@[k] <= x,
        decreases v@.len() - p,
    {
        p = p + 1;
    }
    let ghost before = v@;
    v.insert(p, x);
    proof {
        broadcast use group_to_multiset_ensures;

        assert(v@ =~= before.insert(p as int, x));
        assert(v@.remove(p as int) =~= before);
        assert(v@[p as int] == x);
        assert(v@.to_multiset().count(x) > 0) by {
            assert(v@.contains(x));
        }
        assert(v@.to_multiset() =~= before.to_multiset().insert(x));
        assert forall|i: int, j: int| 0 <= i <= j < v@.len() implies v@[i] <= v@[j] by {
            if i < p && j < p {
            } else if i < p && j == p {
            } else if i < p {
                assert(v@[j] == before[j - 1]);
            } else if i == p && j == p {
            } else if i == p {
                assert(v@[j] == before[j - 1]);
                assert(before[p as int] > x);
            } else {
                assert(v@[i] == before[i - 1]);
                assert(v@[j] == before[j - 1]);
            }
        }
    }
}

/// The card indices among the entries of `/sys/class/drm`, in increasing
/// order.
pub fn drm_card_indices(names: &Vec<String>) -> (r: Vec<u8>)
    ensures
        sorted(r@),
        r@.to_multiset() == card_indices_upto(name_views(names@), names@.len() as int).to_multiset(),
{
    let ghost views = name_views(names@);
    let mut cards: Vec<u8> = Vec::new();
    let mut i: usize = 0;
    while i < names.len()
        invariant
            i <= names@.len(),
            views == name_views(names@),
            sorted(cards@),
            cards@.to_multiset() == card_indices_upto(views, i as int).to_multiset(),
        decreases names@.len() - i,
    {
        assert(views[i as int] == names@[i as int]@);
        match card_index(names[i].as_str()) {
            Some(c) => {
                insert_sorted(&mut cards, c);
                proof {
                    broadcast use group_to_multiset_ensures;

                    assert(card_indices_upto(views, i + 1) =~= card_indices_upto(views, i as int).push(c));
                }
            },
            None => {
                assert(card_indices_upto(views, i + 1) =~= card_indices_upto(views, i as int));
            },
        }
        i = i + 1;
    }
    cards
}

/// The sysfs directory of card `card`'s device.
pub open spec fn device_path_of(card: u8) -> Seq<char> {
    "/sys/class/drm/card"@ + dec_digits(card as nat) + "/device"@
}

/// The files of a card's parameters, in the order they are written:
/// DPM state, forced DPM performance level, power method, power profile.
pub open spec fn parameter_names() -> Seq<Seq<char>> {
    seq![
        "/power_dpm_state"@,
        "/power_dpm_force_performance_level"@,
        "/power_method"@,
        "/power_profile"@,
    ]
}

/// The sysfs directory of card `card`'s device.
pub fn device_path(card: u8) -> (s: String)
    ensures
        s@ == device_path_of(card),
{
    let mut s = string_of("/sys/class/drm/card");
    push_dec(&mut s, card as u64);
    s.append("/device");
    s
}

fn parameter_path(card: u8, k: usize) -> (s: String)
    requires
        k < 4,
    ensures
        s@ == device_path_of(card) + parameter_names()[k as int],
{
    let mut s = device_path(card);
    if k == 0 {
        s.append("/power_dpm_state");
    } else if k == 1 {
        s.append("/power_dpm_force_performance_level");
    } else if k == 2 {
        s.append("/power_method");
    } else {
        s.append("/power_profile");
    }
    s
}

/// The parameter files of card `card`; the card is used only when all exist.
pub fn parameter_paths(card: u8) -> (v: Vec<String>)
    ensures
        v@.len() == 4,
        forall|k: int| 0 <= k < 4 ==> #[trigger] v@[k]@ == device_path_of(card) + parameter_names()[k],
{
    let mut v: Vec<String> = Vec::new();
    let mut k: usize = 0;
    while k < 4
        invariant
            k <= 4,
            v@.len() == k,
            forall|j: int| 0 <= j < k ==> #[trigger] v@[j]@ == device_path_of(card) + parameter_names()[j],
        decreases 4 - k,
    {
        v.push(parameter_path(card, k));
        k = k + 1;
    }
    v
}

/// An AMD card whose power parameters are present.
#[derive(Debug)]
pub struct RadeonDevice {
    card: u8,
}

impl RadeonDevice {
    pub closed spec fn card(&self) -> u8 {
        self.card
    }

    /// The card `card`, when its vendor file names AMD and all its parameter
    /// files exist.
    pub fn new(card: u8, vendor_file: Option<&str>, parameters_present: bool) -> (r: Option<Self>)
        ensures
            r is Some <==> (vendor_file matches Some(c) && vendor_id_of(c@) == Some(0x1002nat))
                && parameters_present,
            r matches Some(d) ==> d.card() == card,
    {
        if !is_amd_vendor(vendor_file) {
            return None;
        }
        if parameters_present {
            Some(RadeonDevice { card })
        } else {
            None
        }
    }

    /// The card's index.
    pub fn card_index(&self) -> (c: u8)
        ensures
            c == self.card(),
    {
        self.card
    }

    /// The writes that set the card's profile, in order: the DPM state, the
    /// forced performance level, the `profile` power method, the power
    /// profile.
    pub fn set_profiles(&self, power_profile: &str, dpm_state: &str, dpm_perf: &str) -> (w: Vec<(String, String)>)
        ensures
            w@.len() == 4,
            forall|k: int| 0 <= k < 4 ==> #[trigger] w@[k].0@ == device_path_of(self.card()) + parameter_names()[k],
            w@[0].1@ == dpm_state@,
            w@[1].1@ == dpm_perf@,
            w@[2].1@ == "profile"@,
            w@[3].1@ == power_profile@,
    {
        let mut w: Vec<(String, String)> = Vec::new();
        w.push((parameter_path(self.card, 0), string_of(dpm_state)));
        w.push((parameter_path(self.card, 1), string_of(dpm_perf)));
        w.push((parameter_path(self.card, 2), string_of("profile")));
        w.push((parameter_path(self.card, 3), string_of(power_profile)));
        w
    }
}

} // verus!
