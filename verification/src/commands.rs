//! The serial console commands of the device: whitespace-separated
//! arguments, and the command that stores the WiFi credentials.

use vstd::prelude::*;
use crate::color::{color_from_u32, color_u32, RGBLedColor};
use crate::store::SettingsStore;
use crate::wire::{decimal_string, enc_number};

verus! {

broadcast use vstd::string::group_string_axioms;

/// An ASCII whitespace separator.
pub open spec fn is_space(c: char) -> bool {
    c == ' ' || c == '\t' || c == '\n' || c == '\r'
}

/// First position at or after `i` holding no whitespace.
pub open spec fn skip_spaces(s: Seq<char>, i: int) -> int
    decreases s.len() - i,
{
    if 0 <= i < s.len() && is_space(s[i]) {
        skip_spaces(s, i + 1)
    } else {
        i
    }
}

/// First position at or after `i` holding whitespace, or the end.
pub open spec fn token_end(s: Seq<char>, i: int) -> int
    decreases s.len() - i,
{
    if 0 <= i < s.len() && !is_space(s[i]) {
        token_end(s, i + 1)
    } else {
        i
    }
}

/// The skip neither moves backwards nor leaves the text, and stops on
/// the first non-space.
proof fn lemma_skip_spaces_props(s: Seq<char>, i: int)
    requires
        0 <= i <= s.len(),
    ensures
        i <= skip_spaces(s, i) <= s.len(),
        skip_spaces(s, i) < s.len() ==> !is_space(s[skip_spaces(s, i)]),
    decreases s.len() - i,
{
    if i < s.len() && is_space(s[i]) {
        lemma_skip_spaces_props(s, i + 1);
    }
}

/// The token scan neither moves backwards nor leaves the text.
proof fn lemma_token_end_bounds(s: Seq<char>, i: int)
    requires
        0 <= i <= s.len(),
    ensures
        i <= token_end(s, i) <= s.len(),
    decreases s.len() - i,
{
    if i < s.len() && !is_space(s[i]) {
        lemma_token_end_bounds(s, i + 1);
    }
}

/// The `at`-th whitespace-separated token of `s` from position `i` on.
pub open spec fn spec_token_from(s: Seq<char>, i: int, at: int) -> Option<Seq<char>>
    decreases s.len() - i,
    via spec_token_from_dec
{
    if i < 0 || i > s.len() || at < 0 {
        None
    } else {
        let b = skip_spaces(s, i);
        if b >= s.len() {
            None
        } else if at == 0 {
            Some(s.subrange(b, token_end(s, b)))
        } else {
            spec_token_from(s, token_end(s, b), at - 1)
        }
    }
}

#[via_fn]
proof fn spec_token_from_dec(s: Seq<char>, i: int, at: int) {
    if 0 <= i <= s.len() {
        lemma_skip_spaces_props(s, i);
        let b = skip_spaces(s, i);
        if b < s.len() {
            lemma_token_end_bounds(s, b + 1);
            assert(token_end(s, b) == token_end(s, b + 1));
        }
    }
}

/// Whether `c` is an ASCII whitespace separator.
fn is_space_char(c: char) -> (b: bool)
    ensures
        b == is_space(c),
{
    c == ' ' || c == '\t' || c == '\n' || c == '\r'
}

/// First position at or after `i` holding no whitespace.
fn skip_spaces_at(s: &str, i: usize) -> (r: usize)
    requires
        i <= s@.len(),
    ensures
        r == skip_spaces(s@, i as int),
        i <= r <= s@.len(),
{
    let n = s.unicode_len();
    let mut j = i;
    while j < n
        invariant
            i <= j <= n,
            n == s@.len(),
            skip_spaces(s@, i as int) == skip_spaces(s@, j as int),
        decreases n - j,
    {
        if !is_space_char(s.get_char(j)) {
            return j;
        }
        j = j + 1;
    }
    j
}

/// First position at or after `i` holding whitespace, or the end.
fn token_end_at(s: &str, i: usize) -> (r: usize)
    requires
        i <= s@.len(),
    ensures
        r == token_end(s@, i as int),
        i <= r <= s@.len(),
{
    let n = s.unicode_len();
    let mut j = i;
    while j < n
        invariant
            i <= j <= n,
            n == s@.len(),
            token_end(s@, i as int) == token_end(s@, j as int),
        decreases n - j,
    {
        if is_space_char(s.get_char(j)) {
            return j;
        }
        j = j + 1;
    }
    j
}

/// A requested argument position the input does not hold.
#[derive(Debug, Clone)]
pub struct ArguementMissingError(pub usize);

impl ArguementMissingError {
    /// The error as a line for a human.
    pub fn describe(&self) -> (r: String)
        ensures
            r@ == "argument at position "@ + enc_number(self.0 as int) + " is missing"@,
    {
        let mut r = "argument at position ".to_owned();
        let digits = decimal_string(self.0 as u64);
        r.append(digits.as_str());
        r.append(" is missing");
        proof {
            assert(r@ =~= "argument at position "@ + enc_number(self.0 as int)
                + " is missing"@);
        }
        r
    }
}

/// The `at`-th whitespace-separated argument of `input`, or the missing
/// position as the error.
pub fn parse_argument(input: &str, at: usize) -> (r: Result<String, ArguementMissingError>)
    ensures
        match r {
            Ok(t) => spec_token_from(input@, 0, at as int) == Some(t@),
            Err(e) => spec_token_from(input@, 0, at as int) is None && e.0 == at,
        },
{
    let n = input.unicode_len();
    let mut i: usize = 0;
    let mut k: usize = 0;
    while k < at
        invariant
            k <= at,
            i <= n,
            n == input@.len(),
            spec_token_from(input@, 0, at as int) == spec_token_from(
                input@,
                i as int,
                (at - k) as int,
            ),
        decreases at - k,
    {
        let b = skip_spaces_at(input, i);
        if b >= n {
            return Err(ArguementMissingError(at));
        }
        let e = token_end_at(input, b);
        proof {
            assert(spec_token_from(input@, i as int, (at - k) as int) == spec_token_from(
                input@,
                e as int,
                (at - k - 1) as int,
            ));
        }
        i = e;
        k = k + 1;
    }
    let b = skip_spaces_at(input, i);
    if b >= n {
        return Err(ArguementMissingError(at));
    }
    let e = token_end_at(input, b);
    proof {
        assert(spec_token_from(input@, i as int, 0) == Some(input@.subrange(b as int, e as int)));
    }
    Ok(input.substring_char(b, e).to_owned())
}

/// Outcome of one console command.
#[derive(Clone, Copy, Debug, PartialEq, Eq, Structural)]
pub enum CommandOutcome {
    /// The WiFi credentials were stored; the device applies them after a
    /// restart.
    SettingsSaved,
    /// The first word named no known command.
    UnknownCommand,
}

/// Whether the command word asks for the WiFi setup.
pub open spec fn is_wifi_command(cmd: Seq<char>) -> bool {
    cmd == "wifi"@ || cmd == "wifisetup"@ || cmd == "ws"@
}

/// Runs one console line: `wifi <ssid> <password>` (also spelt
/// `wifisetup` or `ws`) stores both credentials under the `wifi`
/// namespace; anything else changes nothing. A missing credential is
/// reported by its position after the command word, and stores nothing.
pub fn execute_command(input: &str, store: &mut SettingsStore) -> (r: Result<
    CommandOutcome,
    ArguementMissingError,
>)
    ensures
        match spec_token_from(input@, 0, 0) {
            Some(cmd) => if is_wifi_command(cmd) {
                match r {
                    Ok(outcome) => {
                        &&& outcome == CommandOutcome::SettingsSaved
                        &&& spec_token_from(input@, 0, 1) matches Some(ssid)
                            && final(store).text_at("wifi"@, "ssid"@) matches Some(st)
                            && st@ == ssid
                        &&& spec_token_from(input@, 0, 2) matches Some(pw)
                            && final(store).text_at("wifi"@, "password"@) matches Some(pt)
                            && pt@ == pw
                        &&& forall|ns: Seq<char>, k: Seq<char>|
                            !(ns == "wifi"@ && (k == "ssid"@ || k == "password"@))
                                ==> final(store).text_at(ns, k) == old(store).text_at(ns, k)
                        &&& final(store).words() == old(store).words()
                    },
                    Err(e) => {
                        &&& *final(store) == *old(store)
                        &&& (e.0 == 0 && spec_token_from(input@, 0, 1) is None) || (e.0 == 1
                            && spec_token_from(input@, 0, 2) is None)
                    },
                }
            } else {
                r matches Ok(outcome) && outcome == CommandOutcome::UnknownCommand
                    && *final(store) == *old(store)
            },
            None => r matches Ok(outcome) && outcome == CommandOutcome::UnknownCommand
                && *final(store) == *old(store),
        },
{
    proof {
        reveal_strlit("wifi");
        reveal_strlit("wifisetup");
        reveal_strlit("ws");
        reveal_strlit("ssid");
        reveal_strlit("password");
        assert("ssid"@.len() == 4 && "password"@.len() == 8);
    }
    let cmd = match parse_argument(input, 0) {
        Ok(t) => t,
        Err(_) => {
            return Ok(CommandOutcome::UnknownCommand);
        },
    };
    let is_wifi = crate::strutil::string_eq_str(&cmd, "wifi") || crate::strutil::string_eq_str(
        &cmd,
        "wifisetup",
    ) || crate::strutil::string_eq_str(&cmd, "ws");
    if !is_wifi {
        return Ok(CommandOutcome::UnknownCommand);
    }
    let ssid = match parse_argument(input, 1) {
        Ok(t) => t,
        Err(_) => {
            return Err(ArguementMissingError(0));
        },
    };
    let password = match parse_argument(input, 2) {
        Ok(t) => t,
        Err(_) => {
            return Err(ArguementMissingError(1));
        },
    };
    store.set_str("wifi", "ssid", ssid.as_str());
    store.set_str("wifi", "password", password.as_str());
    Ok(CommandOutcome::SettingsSaved)
}


/// The lowercase hex digit character of `d`.
pub open spec fn hex_digit_char(d: int) -> char {
    if d == 0 {
        '0'
    } else if d == 1 {
        '1'
    } else if d == 2 {
        '2'
    } else if d == 3 {
        '3'
    } else if d == 4 {
        '4'
    } else if d == 5 {
        '5'
    } else if d == 6 {
        '6'
    } else if d == 7 {
        '7'
    } else if d == 8 {
        '8'
    } else if d == 9 {
        '9'
    } else if d == 10 {
        'a'
    } else if d == 11 {
        'b'
    } else if d == 12 {
        'c'
    } else if d == 13 {
        'd'
    } else if d == 14 {
        'e'
    } else {
        'f'
    }
}

/// Hex digits of `n`, most significant first, no leading zeros,
/// lowercase.
pub open spec fn enc_hex(n: int) -> Seq<char>
    decreases n,
{
    if n < 16 {
        seq![hex_digit_char(n)]
    } else {
        enc_hex(n / 16).push(hex_digit_char(n % 16))
    }
}

/// A hex digit character, either case.
pub open spec fn is_hex_digit(c: char) -> bool {
    ||| 0x30 <= c as u32 <= 0x39
    ||| 0x61 <= c as u32 <= 0x66
    ||| 0x41 <= c as u32 <= 0x46
}

/// Value of a hex digit character.
pub open spec fn hex_val(c: char) -> int {
    if 0x30 <= c as u32 <= 0x39 {
        c as u32 - 0x30
    } else if 0x61 <= c as u32 <= 0x66 {
        c as u32 - 0x57
    } else {
        c as u32 - 0x37
    }
}

/// Value of a whole run of hex digits, most significant first.
pub open spec fn hex_value_of(s: Seq<char>) -> int
    decreases s.len(),
{
    if s.len() == 0 {
        0
    } else {
        hex_value_of(s.drop_last()) * 16 + hex_val(s.last())
    }
}

/// The number a whole token spells in hex, either case: at least one
/// digit, nothing else, value within 32 bits.
pub open spec fn spec_parse_hex(s: Seq<char>) -> Option<int> {
    if s.len() == 0 {
        None
    } else if exists|i: int| 0 <= i < s.len() && !is_hex_digit(#[trigger] s[i]) {
        None
    } else if hex_value_of(s) > u32::MAX {
        None
    } else {
        Some(hex_value_of(s))
    }
}

/// One lowercase hex digit, as a one-character string.
fn hex_digit_str(d: u32) -> (r: &'static str)
    requires
        d < 16,
    ensures
        r@ =~= seq![hex_digit_char(d as int)],
{
    proof {
        reveal_strlit("0");
        reveal_strlit("1");
        reveal_strlit("2");
        reveal_strlit("3");
        reveal_strlit("4");
        reveal_strlit("5");
        reveal_strlit("6");
        reveal_strlit("7");
        reveal_strlit("8");
        reveal_strlit("9");
        reveal_strlit("a");
        reveal_strlit("b");
        reveal_strlit("c");
        reveal_strlit("d");
        reveal_strlit("e");
        reveal_strlit("f");
    }
    match d {
        0 => "0",
        1 => "1",
        2 => "2",
        3 => "3",
        4 => "4",
        5 => "5",
        6 => "6",
        7 => "7",
        8 => "8",
        9 => "9",
        10 => "a",
        11 => "b",
        12 => "c",
        13 => "d",
        14 => "e",
        _ => "f",
    }
}

/// Appends the hex digits of `n`.
fn write_hex(out: &mut String, n: u32)
    ensures
        final(out)@ == old(out)@ + enc_hex(n as int),
    decreases n,
{
    if n < 16 {
        out.append(hex_digit_str(n));
    } else {
        write_hex(out, n / 16);
        out.append(hex_digit_str(n % 16));
        proof {
            assert(final(out)@ =~= old(out)@ + enc_hex(n as int));
        }
    }
}

/// The hex digits of `n`, as a lowercase string.
pub fn hex_string(n: u32) -> (r: String)
    ensures
        r@ == enc_hex(n as int),
{
    let mut r = String::new();
    write_hex(&mut r, n);
    proof {
        assert(r@ =~= enc_hex(n as int));
    }
    r
}

/// Whether `c` is a hex digit of either case.
fn is_hex_digit_char(c: char) -> (b: bool)
    ensures
        b == is_hex_digit(c),
{
    let u = c as u32;
    (0x30 <= u && u <= 0x39) || (0x61 <= u && u <= 0x66) || (0x41 <= u && u <= 0x46)
}

/// The number a whole token spells in hex.
pub fn parse_hex(s: &str) -> (r: Option<u32>)
    ensures
        match r {
            Some(v) => spec_parse_hex(s@) == Some(v as int),
            None => spec_parse_hex(s@) is None,
        },
{
    let n = s.unicode_len();
    if n == 0 {
        return None;
    }
    let mut i: usize = 0;
    let mut acc: u64 = 0;
    let mut over = false;
    while i < n
        invariant
            i <= n,
            n == s@.len(),
            forall|k: int| 0 <= k < i ==> is_hex_digit(#[trigger] s@[k]),
            !over ==> acc == hex_value_of(s@.subrange(0, i as int)) && acc <= u32::MAX,
            over ==> hex_value_of(s@.subrange(0, i as int)) > u32::MAX,
        decreases n - i,
    {
        let c = s.get_char(i);
        if !is_hex_digit_char(c) {
            return None;
        }
        let u = c as u32;
        let d: u64 = if 0x30 <= u && u <= 0x39 {
            (u - 0x30) as u64
        } else if 0x61 <= u && u <= 0x66 {
            (u - 0x57) as u64
        } else {
            (u - 0x37) as u64
        };
        proof {
            assert(s@.subrange(0, i + 1).drop_last() =~= s@.subrange(0, i as int));
            assert(hex_value_of(s@.subrange(0, i + 1)) == hex_value_of(s@.subrange(0, i as int))
                * 16 + hex_val(s@[i as int]));
        }
        if over {
        } else {
            let next: u64 = acc * 16 + d;
            if next > 0xFFFF_FFFF {
                over = true;
            } else {
                acc = next;
            }
        }
        i = i + 1;
    }
    proof {
        assert(s@.subrange(0, n as int) =~= s@);
    }
    if over {
        return None;
    }
    Some(acc as u32)
}


/// Hex digit characters carry their values and are never whitespace.
proof fn lemma_hex_digit_char_val(d: int)
    requires
        0 <= d <= 15,
    ensures
        is_hex_digit(hex_digit_char(d)),
        hex_val(hex_digit_char(d)) == d,
        !is_space(hex_digit_char(d)),
{
}

/// An encoded hex number is one or more hex digits, none of them
/// whitespace.
proof fn lemma_enc_hex_digits(n: int)
    requires
        n >= 0,
    ensures
        enc_hex(n).len() >= 1,
        forall|k: int|
            0 <= k < enc_hex(n).len() ==> is_hex_digit(#[trigger] enc_hex(n)[k]) && !is_space(
                enc_hex(n)[k],
            ),
    decreases n,
{
    if n < 16 {
        lemma_hex_digit_char_val(n);
    } else {
        lemma_enc_hex_digits(n / 16);
        lemma_hex_digit_char_val(n % 16);
        assert forall|k: int|
            0 <= k < enc_hex(n).len() implies is_hex_digit(#[trigger] enc_hex(n)[k]) && !is_space(
            enc_hex(n)[k],
        ) by {
            if k < enc_hex(n / 16).len() {
                assert(enc_hex(n)[k] == enc_hex(n / 16)[k]);
            } else {
                assert(enc_hex(n)[k] == hex_digit_char(n % 16));
            }
        }
    }
}

/// The digits of an encoded hex number evaluate back to it.
proof fn lemma_hex_value_enc(n: int)
    requires
        n >= 0,
    ensures
        hex_value_of(enc_hex(n)) == n,
    decreases n,
{
    if n < 16 {
        lemma_hex_digit_char_val(n);
        assert(enc_hex(n).drop_last() =~= Seq::<char>::empty());
        assert(hex_value_of(Seq::<char>::empty()) == 0);
    } else {
        lemma_hex_value_enc(n / 16);
        lemma_hex_digit_char_val(n % 16);
        assert(enc_hex(n).drop_last() =~= enc_hex(n / 16));
        assert(enc_hex(n).last() == hex_digit_char(n % 16));
        vstd::arithmetic::div_mod::lemma_fundamental_div_mod(n, 16);
    }
}

/// A token scan over non-whitespace bounded by whitespace ends exactly
/// there.
proof fn lemma_token_end_to(s: Seq<char>, i: int, j: int)
    requires
        0 <= i <= j <= s.len(),
        forall|k: int| i <= k < j ==> !is_space(#[trigger] s[k]),
        j == s.len() || is_space(s[j]),
    ensures
        token_end(s, i) == j,
    decreases j - i,
{
    if i < j {
        lemma_token_end_to(s, i + 1, j);
    }
}

/// Whether the command word asks to set the color directly.
pub open spec fn is_color_command(cmd: Seq<char>) -> bool {
    cmd == "rgbcolor"@ || cmd == "color"@ || cmd == "setcolor"@ || cmd == "clr"@
}

/// The color one console line sets, if its first word asks for that and
/// its second spells a hex color; bits above the low 24 are ignored.
pub open spec fn spec_color_command(s: Seq<char>) -> Option<RGBLedColor> {
    match spec_token_from(s, 0, 0) {
        Some(cmd) => if is_color_command(cmd) {
            match spec_token_from(s, 0, 1) {
                Some(t) => match spec_parse_hex(t) {
                    Some(v) => Some(color_from_u32(v as u32)),
                    None => None,
                },
                None => None,
            }
        } else {
            None
        },
        None => None,
    }
}

/// Reads one console line of the direct color path: `color <hex>` (also
/// spelt `rgbcolor`, `setcolor` or `clr`).
pub fn parse_color_command(input: &str) -> (r: Option<RGBLedColor>)
    ensures
        r == spec_color_command(input@),
{
    proof {
        reveal_strlit("rgbcolor");
        reveal_strlit("color");
        reveal_strlit("setcolor");
        reveal_strlit("clr");
    }
    let cmd = match parse_argument(input, 0) {
        Ok(t) => t,
        Err(_) => {
            return None;
        },
    };
    let is_color = crate::strutil::string_eq_str(&cmd, "rgbcolor")
        || crate::strutil::string_eq_str(&cmd, "color") || crate::strutil::string_eq_str(
        &cmd,
        "setcolor",
    ) || crate::strutil::string_eq_str(&cmd, "clr");
    if !is_color {
        return None;
    }
    let t = match parse_argument(input, 1) {
        Ok(t) => t,
        Err(_) => {
            return None;
        },
    };
    match parse_hex(t.as_str()) {
        Some(v) => Some(RGBLedColor::new_from_u32(v)),
        None => None,
    }
}

/// The legacy color path agrees end to end: the textual command a host
/// builds for a color parses back, on the device, to that very color.
pub proof fn lemma_color_command_round_trip(c: RGBLedColor)
    ensures
        spec_color_command("color "@ + enc_hex(color_u32(c)) + seq!['\n']) == Some(c),
{
    reveal_strlit("color ");
    reveal_strlit("color");
    let v = color_u32(c);
    let hx = enc_hex(v);
    let s = "color "@ + hx + seq!['\n'];
    lemma_enc_hex_digits(v);
    lemma_hex_value_enc(v);
    let front = "color "@ + hx;
    assert forall|k: int| 0 <= k < 6 implies s[k] == "color "@[k] by {
        assert(front[k] == "color "@[k]);
        assert(s[k] == front[k]);
    }
    assert forall|k: int| 6 <= k < 6 + hx.len() implies s[k] == hx[k - 6] && !is_space(s[k])
        && is_hex_digit(s[k]) by {
        assert(front[k] == hx[k - 6]);
        assert(s[k] == front[k]);
    }
    assert(s[front.len() as int] == '\n');
    assert(s.len() == 7 + hx.len());
    // the first token is the command word
    assert(!is_space(s[0]));
    assert(skip_spaces(s, 0) == 0);
    lemma_token_end_to(s, 0, 5);
    assert(s.subrange(0, 5) =~= "color"@);
    assert(spec_token_from(s, 0, 0) == Some("color"@));
    assert(is_color_command("color"@));
    // the second token is the hex run, closed by the line terminator
    assert(spec_token_from(s, 0, 1) == spec_token_from(s, 5, 0));
    assert(skip_spaces(s, 5) == skip_spaces(s, 6));
    assert(skip_spaces(s, 6) == 6);
    lemma_token_end_to(s, 6, 6 + hx.len() as int);
    assert(s.subrange(6, 6 + hx.len() as int) =~= hx);
    assert(spec_token_from(s, 5, 0) == Some(hx));
    // the hex run spells the packed color
    assert(forall|i: int| 0 <= i < hx.len() ==> is_hex_digit(#[trigger] hx[i]));
    assert(v <= 0xFFFFFF);
    assert(spec_parse_hex(hx) == Some(v));
    crate::color::lemma_color_pack_unpack(c);
}

} // verus!
