//! The stub configuration model: the JSON-facing shape with its flexible
//! number values, and its resolution into the exact 32-bit configuration
//! the flashing tool consumes, including the number grammar with radix
//! prefixes and magnitude suffixes.

use vstd::prelude::*;

use crate::text::trim;
use crate::text::trim_of;

verus! {

/// A pin bank.
#[derive(Debug, Clone, Copy, PartialEq, Eq, Structural)]
pub enum PinPortSpec {
    Pa,
    Pb,
    Pbr,
}

/// A pin's driven level.
#[derive(Debug, Clone, Copy, PartialEq, Eq, Structural)]
pub enum PinLevelSpec {
    Low,
    High,
}

/// One pin the stub drives.
#[derive(Debug, Clone, Copy, PartialEq, Eq, Structural)]
pub struct PinSpec {
    pub port: PinPortSpec,
    pub number: u8,
    pub level: PinLevelSpec,
}

/// The flash medium.
#[derive(Debug, Clone, Copy, PartialEq, Eq, Structural)]
pub enum FlashMediaSpec {
    Nor,
    Nand,
}

/// One flash part description.
#[derive(Debug, Clone)]
pub struct FlashSpec {
    pub media: FlashMediaSpec,
    pub driver_index: u8,
    pub manufacturer_id: u8,
    pub device_type: u8,
    pub density_id: u8,
    pub flags: u8,
    pub capacity_bytes: SizeValue,
}

/// A power channel.
#[derive(Debug, Clone, Copy, PartialEq, Eq, Structural)]
pub enum PmicChannelSpec {
    LvSw1001,
    LvSw1002,
    LvSw1003,
    LvSw1004,
    LvSw1005,
    HvSw1501,
    HvSw1502,
    Ldo33,
    Ldo30,
    Ldo28,
}

/// The power-management controller description.
#[derive(Debug, Clone)]
pub struct PmicSpec {
    pub disabled: bool,
    pub scl_port: PinPortSpec,
    pub scl_pin: u8,
    pub sda_port: PinPortSpec,
    pub sda_pin: u8,
    pub channels: Vec<PmicChannelSpec>,
}

/// The SD0 clock pin multiplexing.
#[derive(Debug, Clone, Copy, PartialEq, Eq, Structural)]
pub enum Sd0PinmuxSpec {
    ClkPa34OrPa09,
    ClkPa60OrPa39,
}

/// The SD0 initialisation order.
#[derive(Debug, Clone, Copy, PartialEq, Eq, Structural)]
pub enum Sd0InitSequenceSpec {
    EmmcThenSd,
    SdThenEmmc,
}

/// The SD0 controller description.
#[derive(Debug, Clone)]
pub struct Sd0Spec {
    pub base_address: AddressValue,
    pub pinmux: Sd0PinmuxSpec,
    pub init_sequence: Sd0InitSequenceSpec,
}

/// An address, as a number or as text with a radix prefix.
#[derive(Debug, Clone)]
pub enum AddressValue {
    Number(u64),
    Text(String),
}

/// A size, as a number or as text with a radix prefix and an optional
/// magnitude suffix.
#[derive(Debug, Clone)]
pub enum SizeValue {
    Number(u64),
    Text(String),
}

/// The stub configuration as decoded from its file.
#[derive(Debug, Clone)]
pub struct StubConfigSpec {
    pub pins: Vec<PinSpec>,
    pub flash: Vec<FlashSpec>,
    pub pmic: Option<PmicSpec>,
    pub sd0: Option<Sd0Spec>,
}

/// One resolved flash part, its capacity in bytes.
#[derive(Debug, Clone)]
pub struct FlashResolved {
    pub media: FlashMediaSpec,
    pub driver_index: u8,
    pub manufacturer_id: u8,
    pub device_type: u8,
    pub density_id: u8,
    pub flags: u8,
    pub capacity_bytes: u32,
}

/// The resolved SD0 controller, its base address a plain value.
#[derive(Debug, Clone)]
pub struct Sd0Resolved {
    pub base_address: u32,
    pub pinmux: Sd0PinmuxSpec,
    pub init_sequence: Sd0InitSequenceSpec,
}

/// The stub configuration with every value resolved to what the flashing
/// tool consumes.
#[derive(Debug, Clone)]
pub struct StubConfigResolved {
    pub pins: Vec<PinSpec>,
    pub flash: Vec<FlashResolved>,
    pub pmic: Option<PmicSpec>,
    pub sd0: Option<Sd0Resolved>,
}

/// The numeric value of one digit character, or a negative value for a
/// non-digit.
pub open spec fn char_digit(c: char) -> int {
    if '0' <= c && c <= '9' {
        c as int - 48
    } else if 'a' <= c && c <= 'z' {
        c as int - 97 + 10
    } else if 'A' <= c && c <= 'Z' {
        c as int - 65 + 10
    } else {
        -1
    }
}

/// Every character is a digit of the radix, and there is at least one.
pub open spec fn digits_valid(s: Seq<char>, radix: int) -> bool {
    s.len() > 0 && forall|i: int| 0 <= i < s.len() ==> 0 <= #[trigger] char_digit(s[i]) < radix
}

/// The value of a digit string, most significant first.
pub open spec fn digits_value(s: Seq<char>, radix: int) -> int
    decreases s.len(),
{
    if s.len() == 0 {
        0
    } else {
        digits_value(s.drop_last(), radix) * radix + char_digit(s.last())
    }
}

/// The string with one leading plus sign removed.
pub open spec fn strip_plus(s: Seq<char>) -> Seq<char> {
    if s.len() > 0 && s[0] == '+' {
        s.drop_first()
    } else {
        s
    }
}

/// The magnitude multiplier a trailing suffix stands for.
pub open spec fn suffix_mult(s: Seq<char>) -> int {
    if s.len() > 0 && (s.last() == 'k' || s.last() == 'K') {
        1000
    } else if s.len() > 0 && (s.last() == 'm' || s.last() == 'M') {
        1000000
    } else if s.len() > 0 && (s.last() == 'g' || s.last() == 'G') {
        1000000000
    } else {
        1
    }
}

/// The string with a magnitude suffix removed.
pub open spec fn suffix_stripped(s: Seq<char>) -> Seq<char> {
    if suffix_mult(s) != 1 {
        s.drop_last()
    } else {
        s
    }
}

/// The radix a prefix selects.
pub open spec fn radix_of(s: Seq<char>) -> int {
    if s.len() >= 2 && s[0] == '0' && s[1] == 'x' {
        16
    } else if s.len() >= 2 && s[0] == '0' && s[1] == 'b' {
        2
    } else if s.len() >= 2 && s[0] == '0' && s[1] == 'o' {
        8
    } else {
        10
    }
}

/// The string with a radix prefix removed.
pub open spec fn radix_stripped(s: Seq<char>) -> Seq<char> {
    if radix_of(s) != 10 {
        s.skip(2)
    } else {
        s
    }
}

/// The value a (trimmed) number string parses to: an optional magnitude
/// suffix, a radix prefix, an optional plus sign, digits of the radix, and
/// everything within 32 bits.
pub open spec fn str_to_u32_spec(s: Seq<char>) -> Option<int> {
    let num = suffix_stripped(s);
    let digits = strip_plus(radix_stripped(num));
    let radix = radix_of(num);
    if digits_valid(digits, radix) {
        let v = digits_value(digits, radix);
        if v <= 0xffff_ffff && v * suffix_mult(s) <= 0xffff_ffff {
            Some(v * suffix_mult(s))
        } else {
            None
        }
    } else {
        None
    }
}

proof fn lemma_digits_nonneg(s: Seq<char>, radix: int)
    requires
        forall|i: int| 0 <= i < s.len() ==> 0 <= #[trigger] char_digit(s[i]) < radix,
        radix >= 2,
    ensures
        digits_value(s, radix) >= 0,
    decreases s.len(),
{
    if s.len() > 0 {
        assert forall|i: int| 0 <= i < s.drop_last().len() implies 0 <= #[trigger] char_digit(
            s.drop_last()[i],
        ) < radix by {
            assert(char_digit(s[i]) >= 0);
        }
        lemma_digits_nonneg(s.drop_last(), radix);
        assert(digits_value(s.drop_last(), radix) * radix >= 0) by (nonlinear_arith)
            requires
                digits_value(s.drop_last(), radix) >= 0,
                radix >= 2,
        ;
    }
}

proof fn lemma_digits_prefix_le(s: Seq<char>, radix: int, i: int)
    requires
        forall|k: int| 0 <= k < s.len() ==> 0 <= #[trigger] char_digit(s[k]) < radix,
        radix >= 2,
        0 <= i <= s.len(),
    ensures
        digits_value(s.take(i), radix) <= digits_value(s, radix),
    decreases s.len() - i,
{
    if i < s.len() {
        let t1 = s.take(i + 1);
        let t0 = s.take(i);
        assert(t1.drop_last() =~= t0);
        assert(t1.last() == s[i]);
        assert forall|k: int| 0 <= k < t0.len() implies 0 <= #[trigger] char_digit(t0[k])
            < radix by {
            assert(char_digit(s[k]) >= 0);
        }
        lemma_digits_nonneg(t0, radix);
        assert(digits_value(t0, radix) * radix >= digits_value(t0, radix)) by (nonlinear_arith)
            requires
                digits_value(t0, radix) >= 0,
                radix >= 2,
        ;
        assert(digits_value(t1, radix) >= digits_value(t0, radix));
        lemma_digits_prefix_le(s, radix, i + 1);
        assert(s.take(s.len() as int) =~= s);
    } else {
        assert(s.take(i) =~= s);
    }
}

/// Parses a number string as the flashing tool does: surrounding whitespace
/// ignored, an optional `k`/`M`/`G` magnitude suffix, a `0x`/`0b`/`0o`
/// radix prefix, an optional plus sign, and a 32-bit result.
#[verifier::rlimit(100)]
pub fn str_to_u32(s: &str) -> (r: Option<u32>)
    ensures
        (r matches Some(v) ==> str_to_u32_spec(trim_of(s@)) == Some(v as int)),
        (r is None ==> str_to_u32_spec(trim_of(s@)) is None),
{
    let t = trim(s);
    let ghost ts = trim_of(s@);
    let n = t.unicode_len();
    let mut mult: u32 = 1;
    let mut num_end: usize = n;
    if n > 0 {
        let c = t.get_char(n - 1);
        if c == 'k' || c == 'K' {
            mult = 1000;
            num_end = n - 1;
        } else if c == 'm' || c == 'M' {
            mult = 1000000;
            num_end = n - 1;
        } else if c == 'g' || c == 'G' {
            mult = 1000000000;
            num_end = n - 1;
        }
    }
    proof {
        assert(mult == suffix_mult(ts));
        assert(ts.take(num_end as int) =~= suffix_stripped(ts));
    }
    let ghost num = suffix_stripped(ts);
    let mut radix: u32 = 10;
    let mut start: usize = 0;
    if num_end >= 2 && t.get_char(0) == '0' {
        let c1 = t.get_char(1);
        if c1 == 'x' {
            radix = 16;
            start = 2;
        } else if c1 == 'b' {
            radix = 2;
            start = 2;
        } else if c1 == 'o' {
            radix = 8;
            start = 2;
        }
    }
    proof {
        assert(radix == radix_of(num));
        assert(num.skip(start as int) =~= radix_stripped(num));
    }
    let ghost digits_all = strip_plus(radix_stripped(num));
    let mut i: usize = start;
    if i < num_end && t.get_char(i) == '+' {
        i = i + 1;
    }
    proof {
        assert(ts.take(num_end as int).skip(start as int).skip((i - start) as int) =~= ts.subrange(
            i as int,
            num_end as int,
        ));
        assert(digits_all =~= ts.subrange(i as int, num_end as int));
    }
    if i >= num_end {
        proof {
            assert(digits_all.len() == 0);
            assert(!digits_valid(digits_all, radix as int));
        }
        return None;
    }
    let ghost dstart = i as int;
    proof {
        assert(digits_all =~= ts.subrange(dstart, num_end as int));
    }
    let mut acc: u32 = 0;
    while i < num_end
        invariant
            num_end <= n,
            n == ts.len(),
            t@ == ts,
            ts == trim_of(s@),
            0 <= dstart,
            dstart <= i <= num_end,
            2 <= radix <= 16,
            radix as int == radix_of(suffix_stripped(ts)),
            mult as int == suffix_mult(ts),
            digits_all == strip_plus(radix_stripped(suffix_stripped(ts))),
            digits_all == ts.subrange(dstart, num_end as int),
            forall|k: int| dstart <= k < i ==> 0 <= #[trigger] char_digit(ts[k]) < radix,
            acc as int == digits_value(ts.subrange(dstart, i as int), radix as int),
        decreases num_end - i,
    {
        let c = t.get_char(i);
        proof {
            assert(c == ts[i as int]);
            assert(digits_all[i - dstart] == ts[i as int]);
        }
        let d: u32 = if c >= '0' && c <= '9' {
            (c as u32) - 48
        } else if c >= 'a' && c <= 'z' {
            (c as u32) - 97 + 10
        } else if c >= 'A' && c <= 'Z' {
            (c as u32) - 65 + 10
        } else {
            proof {
                assert(char_digit(digits_all[i - dstart]) == -1);
                assert(!digits_valid(digits_all, radix as int));
            }
            return None;
        };
        if d >= radix {
            proof {
                assert(char_digit(digits_all[i - dstart]) == d);
                assert(!digits_valid(digits_all, radix as int));
            }
            return None;
        }
        let step = match acc.checked_mul(radix) {
            Some(m) => m.checked_add(d),
            None => None,
        };
        match step {
            Some(v) => {
                proof {
                    let t1 = ts.subrange(dstart, i + 1);
                    assert(t1.drop_last() =~= ts.subrange(dstart, i as int));
                    assert(t1.last() == ts[i as int]);
                    assert(char_digit(ts[i as int]) == d);
                }
                acc = v;
            },
            None => {
                // the digits seen so far already overflow 32 bits, so the
                // whole string does
                proof {
                    let t1 = ts.subrange(dstart, i + 1);
                    assert(t1.drop_last() =~= ts.subrange(dstart, i as int));
                    assert(t1.last() == ts[i as int]);
                    assert(char_digit(ts[i as int]) == d);
                    assert(digits_value(t1, radix as int) > 0xffff_ffff);
                    if digits_valid(digits_all, radix as int) {
                        assert forall|k: int|
                            0 <= k < digits_all.len() implies 0 <= #[trigger] char_digit(
                            digits_all[k],
                        ) < radix by {}
                        assert(t1 =~= digits_all.take(i + 1 - dstart));
                        lemma_digits_prefix_le(digits_all, radix as int, i + 1 - dstart);
                        assert(digits_value(digits_all, radix as int) > 0xffff_ffff);
                    }
                }
                return None;
            },
        }
        i = i + 1;
    }
    proof {
        assert(ts.subrange(dstart, num_end as int) =~= digits_all);
        assert forall|k: int| 0 <= k < digits_all.len() implies 0 <= #[trigger] char_digit(
            digits_all[k],
        ) < radix by {
            assert(digits_all[k] == ts[dstart + k]);
            assert(char_digit(ts[dstart + k]) >= 0);
        }
        assert(digits_valid(digits_all, radix as int));
        assert(acc as int == digits_value(digits_all, radix as int));
    }
    match acc.checked_mul(mult) {
        Some(v) => Some(v),
        None => {
            proof {
                assert(acc as int * mult as int > 0xffff_ffff);
            }
            None
        },
    }
}

/// What a flexible address resolves to: the number itself when it fits, or
/// its text parsed without a magnitude suffix.
pub open spec fn address_value_spec(v: AddressValue) -> Option<int> {
    match v {
        AddressValue::Number(x) => if x <= 0xffff_ffff {
            Some(x as int)
        } else {
            None
        },
        AddressValue::Text(s) => if suffix_mult(trim_of(s@)) != 1 {
            None
        } else {
            str_to_u32_spec(trim_of(s@))
        },
    }
}

/// What a flexible size resolves to.
pub open spec fn size_value_spec(v: SizeValue) -> Option<int> {
    match v {
        SizeValue::Number(x) => if x <= 0xffff_ffff {
            Some(x as int)
        } else {
            None
        },
        SizeValue::Text(s) => str_to_u32_spec(trim_of(s@)),
    }
}

/// Two optional power-controller descriptions hold the same data.
pub open spec fn pmic_like(a: Option<PmicSpec>, b: Option<PmicSpec>) -> bool {
    match (a, b) {
        (Some(x), Some(y)) => {
            &&& x.disabled == y.disabled
            &&& x.scl_port == y.scl_port
            &&& x.scl_pin == y.scl_pin
            &&& x.sda_port == y.sda_port
            &&& x.sda_pin == y.sda_pin
            &&& x.channels@ == y.channels@
        },
        (None, None) => true,
        _ => false,
    }
}

/// An exact copy of a power-controller description.
fn copy_pmic(p: &PmicSpec) -> (r: PmicSpec)
    ensures
        r.disabled == p.disabled,
        r.scl_port == p.scl_port,
        r.scl_pin == p.scl_pin,
        r.sda_port == p.sda_port,
        r.sda_pin == p.sda_pin,
        r.channels@ == p.channels@,
{
    let mut channels: Vec<PmicChannelSpec> = Vec::new();
    let mut k: usize = 0;
    while k < p.channels.len()
        invariant
            k <= p.channels@.len(),
            channels@ =~= p.channels@.take(k as int),
        decreases p.channels@.len() - k,
    {
        channels.push(p.channels[k]);
        k = k + 1;
    }
    proof {
        assert(channels@ =~= p.channels@);
    }
    PmicSpec {
        disabled: p.disabled,
        scl_port: p.scl_port,
        scl_pin: p.scl_pin,
        sda_port: p.sda_port,
        sda_pin: p.sda_pin,
        channels,
    }
}

impl AddressValue {
    /// Resolves the address to 32 bits; a magnitude suffix is not accepted
    /// on addresses.
    pub fn to_u32(&self) -> (r: Option<u32>)
        ensures
            (r matches Some(c) ==> address_value_spec(*self) == Some(c as int)),
            (r is None ==> address_value_spec(*self) is None),
    {
        match self {
            AddressValue::Number(value) => {
                if *value <= 0xffff_ffff {
                    Some(*value as u32)
                } else {
                    None
                }
            },
            AddressValue::Text(value) => {
                let tv = trim(value.as_str());
                let n = tv.unicode_len();
                if n > 0 {
                    let c = tv.get_char(n - 1);
                    if c == 'k' || c == 'K' || c == 'm' || c == 'M' || c == 'g' || c == 'G' {
                        return None;
                    }
                }
                str_to_u32(value.as_str())
            },
        }
    }
}

impl SizeValue {
    /// Resolves the size to 32 bits.
    pub fn to_u32(&self) -> (r: Option<u32>)
        ensures
            (r matches Some(c) ==> size_value_spec(*self) == Some(c as int)),
            (r is None ==> size_value_spec(*self) is None),
    {
        match self {
            SizeValue::Number(value) => {
                if *value <= 0xffff_ffff {
                    Some(*value as u32)
                } else {
                    None
                }
            },
            SizeValue::Text(value) => str_to_u32(value.as_str()),
        }
    }
}

impl StubConfigSpec {
    /// Resolves the configuration for the flashing tool: at most twelve
    /// pins and twelve flash parts, and every flexible value within 32
    /// bits.
    pub fn to_stub_config(&self) -> (r: Result<StubConfigResolved, String>)
        ensures
            r matches Ok(c) ==> {
                &&& self.pins@.len() <= 12
                &&& self.flash@.len() <= 12
                &&& c.pins@ == self.pins@
                &&& c.flash@.len() == self.flash@.len()
                &&& forall|i: int|
                    0 <= i < self.flash@.len() ==> {
                        let f = #[trigger] self.flash@[i];
                        let g = c.flash@[i];
                        &&& g.media == f.media
                        &&& g.driver_index == f.driver_index
                        &&& g.manufacturer_id == f.manufacturer_id
                        &&& g.device_type == f.device_type
                        &&& g.density_id == f.density_id
                        &&& g.flags == f.flags
                        &&& size_value_spec(f.capacity_bytes) == Some(g.capacity_bytes as int)
                    }
                &&& pmic_like(c.pmic, self.pmic)
                &&& match self.sd0 {
                    Some(sd0) => c.sd0 matches Some(rs) && address_value_spec(sd0.base_address)
                        == Some(rs.base_address as int) && rs.pinmux == sd0.pinmux
                        && rs.init_sequence == sd0.init_sequence,
                    None => c.sd0 is None,
                }
            },
            r is Err ==> (self.pins@.len() > 12 || self.flash@.len() > 12 || (exists|i: int|
                0 <= i < self.flash@.len() && size_value_spec(
                    (#[trigger] self.flash@[i]).capacity_bytes,
                ) is None) || (self.sd0 matches Some(sd0) && address_value_spec(sd0.base_address)
                is None)),
    {
        if self.pins.len() > 12 {
            return Err(String::from_str("pins length exceeds 12"));
        }
        if self.flash.len() > 12 {
            return Err(String::from_str("flash length exceeds 12"));
        }
        let mut pins: Vec<PinSpec> = Vec::new();
        let mut k: usize = 0;
        while k < self.pins.len()
            invariant
                k <= self.pins@.len(),
                pins@ =~= self.pins@.take(k as int),
            decreases self.pins@.len() - k,
        {
            pins.push(self.pins[k]);
            k = k + 1;
        }
        proof {
            assert(pins@ =~= self.pins@);
        }
        let mut flash: Vec<FlashResolved> = Vec::new();
        let mut j: usize = 0;
        while j < self.flash.len()
            invariant
                j <= self.flash@.len(),
                flash@.len() == j,
                forall|i: int|
                    0 <= i < j ==> {
                        let f = #[trigger] self.flash@[i];
                        let g = flash@[i];
                        &&& g.media == f.media
                        &&& g.driver_index == f.driver_index
                        &&& g.manufacturer_id == f.manufacturer_id
                        &&& g.device_type == f.device_type
                        &&& g.density_id == f.density_id
                        &&& g.flags == f.flags
                        &&& size_value_spec(f.capacity_bytes) == Some(g.capacity_bytes as int)
                    },
            decreases self.flash@.len() - j,
        {
            let entry = &self.flash[j];
            let capacity = match entry.capacity_bytes.to_u32() {
                Some(c) => c,
                None => {
                    return Err(String::from_str("capacity_bytes parse error"));
                },
            };
            flash.push(
                FlashResolved {
                    media: entry.media,
                    driver_index: entry.driver_index,
                    manufacturer_id: entry.manufacturer_id,
                    device_type: entry.device_type,
                    density_id: entry.density_id,
                    flags: entry.flags,
                    capacity_bytes: capacity,
                },
            );
            j = j + 1;
        }
        let pmic: Option<PmicSpec> = match &self.pmic {
            Some(p) => Some(copy_pmic(p)),
            None => None,
        };
        let sd0: Option<Sd0Resolved> = match &self.sd0 {
            Some(sd0) => {
                let base = match sd0.base_address.to_u32() {
                    Some(b) => b,
                    None => {
                        return Err(String::from_str("base_address parse error"));
                    },
                };
                Some(
                    Sd0Resolved {
                        base_address: base,
                        pinmux: sd0.pinmux,
                        init_sequence: sd0.init_sequence,
                    },
                )
            },
            None => None,
        };
        Ok(StubConfigResolved { pins, flash, pmic, sd0 })
    }

    /// Rebuilds the JSON-facing shape from a resolved configuration; every
    /// flexible value becomes a plain number.
    pub fn from_stub_config(config: &StubConfigResolved) -> (r: StubConfigSpec)
        ensures
            r.pins@ == config.pins@,
            r.flash@.len() == config.flash@.len(),
            forall|i: int|
                0 <= i < config.flash@.len() ==> {
                    let g = #[trigger] config.flash@[i];
                    let f = r.flash@[i];
                    &&& f.media == g.media
                    &&& f.driver_index == g.driver_index
                    &&& f.manufacturer_id == g.manufacturer_id
                    &&& f.device_type == g.device_type
                    &&& f.density_id == g.density_id
                    &&& f.flags == g.flags
                    &&& f.capacity_bytes matches SizeValue::Number(v) && v == g.capacity_bytes
                },
            pmic_like(r.pmic, config.pmic),
            match config.sd0 {
                Some(rs) => r.sd0 matches Some(sd0) && (sd0.base_address matches AddressValue::Number(
                    v,
                ) && v == rs.base_address) && sd0.pinmux == rs.pinmux && sd0.init_sequence
                    == rs.init_sequence,
                None => r.sd0 is None,
            },
    {
        let mut pins: Vec<PinSpec> = Vec::new();
        let mut k: usize = 0;
        while k < config.pins.len()
            invariant
                k <= config.pins@.len(),
                pins@ =~= config.pins@.take(k as int),
            decreases config.pins@.len() - k,
        {
            pins.push(config.pins[k]);
            k = k + 1;
        }
        proof {
            assert(pins@ =~= config.pins@);
        }
        let mut flash: Vec<FlashSpec> = Vec::new();
        let mut j: usize = 0;
        while j < config.flash.len()
            invariant
                j <= config.flash@.len(),
                flash@.len() == j,
                forall|i: int|
                    0 <= i < j ==> {
                        let g = #[trigger] config.flash@[i];
                        let f = flash@[i];
                        &&& f.media == g.media
                        &&& f.driver_index == g.driver_index
                        &&& f.manufacturer_id == g.manufacturer_id
                        &&& f.device_type == g.device_type
                        &&& f.density_id == g.density_id
                        &&& f.flags == g.flags
                        &&& f.capacity_bytes matches SizeValue::Number(v) && v == g.capacity_bytes
                    },
            decreases config.flash@.len() - j,
        {
            let entry = &config.flash[j];
            flash.push(
                FlashSpec {
                    media: entry.media,
                    driver_index: entry.driver_index,
                    manufacturer_id: entry.manufacturer_id,
                    device_type: entry.device_type,
                    density_id: entry.density_id,
                    flags: entry.flags,
                    capacity_bytes: SizeValue::Number(entry.capacity_bytes as u64),
                },
            );
            j = j + 1;
        }
        let pmic: Option<PmicSpec> = match &config.pmic {
            Some(p) => Some(copy_pmic(p)),
            None => None,
        };
        let sd0: Option<Sd0Spec> = match &config.sd0 {
            Some(rs) => Some(
                Sd0Spec {
                    base_address: AddressValue::Number(rs.base_address as u64),
                    pinmux: rs.pinmux,
                    init_sequence: rs.init_sequence,
                },
            ),
            None => None,
        };
        StubConfigSpec { pins, flash, pmic, sd0 }
    }
}

} // verus!
