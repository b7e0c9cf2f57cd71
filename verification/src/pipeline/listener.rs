//! Push-to-talk key names.
//!
//! The global keyboard hook itself belongs to the program (it blocks its own
//! thread and talks to the OS); this module decides which key a configured name
//! stands for and validates the configuration.

use vstd::prelude::*;

use crate::domain::models::{KeyEvent, KeyEventKind};
use crate::utils::text::{ascii_lowercase_spec, chars_equal, chars_of, to_ascii_lowercase};

verus! {

/// A key the push-to-talk listener can watch.
#[derive(Clone, Copy, Debug, PartialEq, Eq, Structural)]
pub enum PttKey {
    F1,
    F2,
    F3,
    F4,
    F5,
    F6,
    F7,
    F8,
    F9,
    F10,
    F11,
    F12,
    Space,
    ControlRight,
    AltGr,
    /// A key without a named variant, by the platform's native key code.
    Unknown(u32),
}

/// The platform whose native key codes name F13-F24.
#[derive(Clone, Copy, Debug, PartialEq, Eq, Structural)]
pub enum KeyPlatform {
    /// Win32 virtual-key codes (`VK_F13`..`VK_F24` = 0x7C..0x87).
    Windows,
    /// X11/XKB keycodes (evdev `KEY_F13`..`KEY_F24` = 183..194, plus 8).
    Linux,
    /// No extended function keys.
    Other,
}

/// The keys with a name of their own, by lowercase name.
pub open spec fn named_key(name: Seq<char>) -> Option<PttKey> {
    if name == "f1"@ {
        Some(PttKey::F1)
    } else if name == "f2"@ {
        Some(PttKey::F2)
    } else if name == "f3"@ {
        Some(PttKey::F3)
    } else if name == "f4"@ {
        Some(PttKey::F4)
    } else if name == "f5"@ {
        Some(PttKey::F5)
    } else if name == "f6"@ {
        Some(PttKey::F6)
    } else if name == "f7"@ {
        Some(PttKey::F7)
    } else if name == "f8"@ {
        Some(PttKey::F8)
    } else if name == "f9"@ {
        Some(PttKey::F9)
    } else if name == "f10"@ {
        Some(PttKey::F10)
    } else if name == "f11"@ {
        Some(PttKey::F11)
    } else if name == "f12"@ {
        Some(PttKey::F12)
    } else if name == "space"@ {
        Some(PttKey::Space)
    } else if name == "ctrl_r"@ {
        Some(PttKey::ControlRight)
    } else if name == "control_r"@ {
        Some(PttKey::ControlRight)
    } else if name == "alt_r"@ {
        Some(PttKey::AltGr)
    } else {
        None
    }
}

/// Native key code of F13-F24 on `platform`, by lowercase name.
pub open spec fn extended_function_key_code(name: Seq<char>, platform: KeyPlatform) -> Option<u32> {
    match platform {
        KeyPlatform::Windows => windows_function_key_code(name),
        KeyPlatform::Linux => linux_function_key_code(name),
        KeyPlatform::Other => None,
    }
}

pub open spec fn windows_function_key_code(name: Seq<char>) -> Option<u32> {
    if name == "f13"@ {
        Some(0x7Cu32)
    } else if name == "f14"@ {
        Some(0x7Du32)
    } else if name == "f15"@ {
        Some(0x7Eu32)
    } else if name == "f16"@ {
        Some(0x7Fu32)
    } else if name == "f17"@ {
        Some(0x80u32)
    } else if name == "f18"@ {
        Some(0x81u32)
    } else if name == "f19"@ {
        Some(0x82u32)
    } else if name == "f20"@ {
        Some(0x83u32)
    } else if name == "f21"@ {
        Some(0x84u32)
    } else if name == "f22"@ {
        Some(0x85u32)
    } else if name == "f23"@ {
        Some(0x86u32)
    } else if name == "f24"@ {
        Some(0x87u32)
    } else {
        None
    }
}

pub open spec fn linux_function_key_code(name: Seq<char>) -> Option<u32> {
    if name == "f13"@ {
        Some(191u32)
    } else if name == "f14"@ {
        Some(192u32)
    } else if name == "f15"@ {
        Some(193u32)
    } else if name == "f16"@ {
        Some(194u32)
    } else if name == "f17"@ {
        Some(195u32)
    } else if name == "f18"@ {
        Some(196u32)
    } else if name == "f19"@ {
        Some(197u32)
    } else if name == "f20"@ {
        Some(198u32)
    } else if name == "f21"@ {
        Some(199u32)
    } else if name == "f22"@ {
        Some(200u32)
    } else if name == "f23"@ {
        Some(201u32)
    } else if name == "f24"@ {
        Some(202u32)
    } else {
        None
    }
}

/// The key a configured name stands for: names are matched ignoring ASCII
/// case; F13-F24 are named by their native key code on `platform`.
pub open spec fn parse_key_spec(name: Seq<char>, platform: KeyPlatform) -> Option<PttKey> {
    let lower = ascii_lowercase_spec(name);
    match named_key(lower) {
        Some(k) => Some(k),
        None => match extended_function_key_code(lower, platform) {
            Some(code) => Some(PttKey::Unknown(code)),
            None => None,
        },
    }
}

/// A decimal digit.
pub open spec fn digit_char(d: nat) -> char {
    if d == 0 {
        '0'
    } else if d == 1 {
        '1'
    } else if d == 2 {
        '2'
    } else if d == 3 {
        '3'
    } else if d == 4 {
        '4'
    } else if d == 5 {
        '5'
    } else if d == 6 {
        '6'
    } else if d == 7 {
        '7'
    } else if d == 8 {
        '8'
    } else {
        '9'
    }
}

/// The decimal numeral of `n` (below 100).
pub open spec fn decimal(n: nat) -> Seq<char> {
    if n < 10 {
        seq![digit_char(n)]
    } else {
        seq![digit_char(n / 10), digit_char(n % 10)]
    }
}

/// The number in a function key's name (`F7` is 7); 0 for other keys.
pub open spec fn function_key_number(k: PttKey) -> nat {
    match k {
        PttKey::F1 => 1,
        PttKey::F2 => 2,
        PttKey::F3 => 3,
        PttKey::F4 => 4,
        PttKey::F5 => 5,
        PttKey::F6 => 6,
        PttKey::F7 => 7,
        PttKey::F8 => 8,
        PttKey::F9 => 9,
        PttKey::F10 => 10,
        PttKey::F11 => 11,
        PttKey::F12 => 12,
        _ => 0,
    }
}

/// Law: the name `fN` (or `FN`) of a function key stands for the key with that
/// number: F1-F12 for the named keys on every platform; F13-F24 by native code,
/// the Win32 virtual key `VK_F1 + N - 1` on Windows and the X11 keycode (evdev
/// `KEY_F13 + N - 13`, plus 8) on Linux, and no key elsewhere.
#[verifier::rlimit(50)]
pub proof fn lemma_function_key_names(c: char, n: nat, platform: KeyPlatform)
    requires
        c == 'f' || c == 'F',
        1 <= n <= 24,
    ensures
        n <= 12 ==> (parse_key_spec(seq![c] + decimal(n), platform) matches Some(k)
            && function_key_number(k) == n),
        n >= 13 && platform == KeyPlatform::Windows ==> parse_key_spec(seq![c] + decimal(n), platform)
            == Some(PttKey::Unknown((0x70 + n - 1) as u32)),
        n >= 13 && platform == KeyPlatform::Linux ==> parse_key_spec(seq![c] + decimal(n), platform)
            == Some(PttKey::Unknown((183 + (n - 13) + 8) as u32)),
        n >= 13 && platform == KeyPlatform::Other ==> parse_key_spec(seq![c] + decimal(n), platform)
            is None,
{
    reveal_strlit("f1");
    reveal_strlit("f2");
    reveal_strlit("f3");
    reveal_strlit("f4");
    reveal_strlit("f5");
    reveal_strlit("f6");
    reveal_strlit("f7");
    reveal_strlit("f8");
    reveal_strlit("f9");
    reveal_strlit("f10");
    reveal_strlit("f11");
    reveal_strlit("f12");
    reveal_strlit("f13");
    reveal_strlit("f14");
    reveal_strlit("f15");
    reveal_strlit("f16");
    reveal_strlit("f17");
    reveal_strlit("f18");
    reveal_strlit("f19");
    reveal_strlit("f20");
    reveal_strlit("f21");
    reveal_strlit("f22");
    reveal_strlit("f23");
    reveal_strlit("f24");
    reveal_strlit("space");
    reveal_strlit("ctrl_r");
    reveal_strlit("control_r");
    reveal_strlit("alt_r");
    let name = seq![c] + decimal(n);
    let lower = ascii_lowercase_spec(name);
    assert(lower =~= seq!['f'] + decimal(n));
    assert("f1"@.len() == 2 && "f1"@[1] == '1');
    assert("f2"@.len() == 2 && "f2"@[1] == '2');
    assert("f3"@.len() == 2 && "f3"@[1] == '3');
    assert("f4"@.len() == 2 && "f4"@[1] == '4');
    assert("f5"@.len() == 2 && "f5"@[1] == '5');
    assert("f6"@.len() == 2 && "f6"@[1] == '6');
    assert("f7"@.len() == 2 && "f7"@[1] == '7');
    assert("f8"@.len() == 2 && "f8"@[1] == '8');
    assert("f9"@.len() == 2 && "f9"@[1] == '9');
    assert("f10"@.len() == 3 && "f10"@[1] == '1' && "f10"@[2] == '0');
    assert("f11"@.len() == 3 && "f11"@[1] == '1' && "f11"@[2] == '1');
    assert("f12"@.len() == 3 && "f12"@[1] == '1' && "f12"@[2] == '2');
    assert("f13"@.len() == 3 && "f13"@[1] == '1' && "f13"@[2] == '3');
    assert("f14"@.len() == 3 && "f14"@[1] == '1' && "f14"@[2] == '4');
    assert("f15"@.len() == 3 && "f15"@[1] == '1' && "f15"@[2] == '5');
    assert("f16"@.len() == 3 && "f16"@[1] == '1' && "f16"@[2] == '6');
    assert("f17"@.len() == 3 && "f17"@[1] == '1' && "f17"@[2] == '7');
    assert("f18"@.len() == 3 && "f18"@[1] == '1' && "f18"@[2] == '8');
    assert("f19"@.len() == 3 && "f19"@[1] == '1' && "f19"@[2] == '9');
    assert("f20"@.len() == 3 && "f20"@[1] == '2' && "f20"@[2] == '0');
    assert("f21"@.len() == 3 && "f21"@[1] == '2' && "f21"@[2] == '1');
    assert("f22"@.len() == 3 && "f22"@[1] == '2' && "f22"@[2] == '2');
    assert("f23"@.len() == 3 && "f23"@[1] == '2' && "f23"@[2] == '3');
    assert("f24"@.len() == 3 && "f24"@[1] == '2' && "f24"@[2] == '4');
    if n == 1 {
        assert(lower.len() == 2 && lower[1] == '1');
        assert(lower =~= "f1"@);
        assert(named_key(lower) == Some(PttKey::F1));
    } else if n == 2 {
        assert(lower.len() == 2 && lower[1] == '2');
        assert(lower =~= "f2"@);
        assert(named_key(lower) == Some(PttKey::F2));
    } else if n == 3 {
        assert(lower.len() == 2 && lower[1] == '3');
        assert(lower =~= "f3"@);
        assert(named_key(lower) == Some(PttKey::F3));
    } else if n == 4 {
        assert(lower.len() == 2 && lower[1] == '4');
        assert(lower =~= "f4"@);
        assert(named_key(lower) == Some(PttKey::F4));
    } else if n == 5 {
        assert(lower.len() == 2 && lower[1] == '5');
        assert(lower =~= "f5"@);
        assert(named_key(lower) == Some(PttKey::F5));
    } else if n == 6 {
        assert(lower.len() == 2 && lower[1] == '6');
        assert(lower =~= "f6"@);
        assert(named_key(lower) == Some(PttKey::F6));
    } else if n == 7 {
        assert(lower.len() == 2 && lower[1] == '7');
        assert(lower =~= "f7"@);
        assert(named_key(lower) == Some(PttKey::F7));
    } else if n == 8 {
        assert(lower.len() == 2 && lower[1] == '8');
        assert(lower =~= "f8"@);
        assert(named_key(lower) == Some(PttKey::F8));
    } else if n == 9 {
        assert(lower.len() == 2 && lower[1] == '9');
        assert(lower =~= "f9"@);
        assert(named_key(lower) == Some(PttKey::F9));
    } else if n == 10 {
        assert(lower.len() == 3 && lower[1] == '1' && lower[2] == '0');
        assert(lower =~= "f10"@);
        assert(named_key(lower) == Some(PttKey::F10));
    } else if n == 11 {
        assert(lower.len() == 3 && lower[1] == '1' && lower[2] == '1');
        assert(lower =~= "f11"@);
        assert(named_key(lower) == Some(PttKey::F11));
    } else if n == 12 {
        assert(lower.len() == 3 && lower[1] == '1' && lower[2] == '2');
        assert(lower =~= "f12"@);
        assert(named_key(lower) == Some(PttKey::F12));
    } else if n == 13 {
        assert(lower.len() == 3 && lower[1] == '1' && lower[2] == '3');
        assert(lower =~= "f13"@);
        assert(named_key(lower) is None);
    } else if n == 14 {
        assert(lower.len() == 3 && lower[1] == '1' && lower[2] == '4');
        assert(lower =~= "f14"@);
        assert(named_key(lower) is None);
    } else if n == 15 {
        assert(lower.len() == 3 && lower[1] == '1' && lower[2] == '5');
        assert(lower =~= "f15"@);
        assert(named_key(lower) is None);
    } else if n == 16 {
        assert(lower.len() == 3 && lower[1] == '1' && lower[2] == '6');
        assert(lower =~= "f16"@);
        assert(named_key(lower) is None);
    } else if n == 17 {
        assert(lower.len() == 3 && lower[1] == '1' && lower[2] == '7');
        assert(lower =~= "f17"@);
        assert(named_key(lower) is None);
    } else if n == 18 {
        assert(lower.len() == 3 && lower[1] == '1' && lower[2] == '8');
        assert(lower =~= "f18"@);
        assert(named_key(lower) is None);
    } else if n == 19 {
        assert(lower.len() == 3 && lower[1] == '1' && lower[2] == '9');
        assert(lower =~= "f19"@);
        assert(named_key(lower) is None);
    } else if n == 20 {
        assert(lower.len() == 3 && lower[1] == '2' && lower[2] == '0');
        assert(lower =~= "f20"@);
        assert(named_key(lower) is None);
    } else if n == 21 {
        assert(lower.len() == 3 && lower[1] == '2' && lower[2] == '1');
        assert(lower =~= "f21"@);
        assert(named_key(lower) is None);
    } else if n == 22 {
        assert(lower.len() == 3 && lower[1] == '2' && lower[2] == '2');
        assert(lower =~= "f22"@);
        assert(named_key(lower) is None);
    } else if n == 23 {
        assert(lower.len() == 3 && lower[1] == '2' && lower[2] == '3');
        assert(lower =~= "f23"@);
        assert(named_key(lower) is None);
    } else {
        assert(lower.len() == 3 && lower[1] == '2' && lower[2] == '4');
        assert(lower =~= "f24"@);
        assert(named_key(lower) is None);
    }
}

/// Law: no two names stand for the same named key, except the two spellings
/// of the right Control key; the space bar, right Control and AltGr are named
/// exactly by `space`, `ctrl_r` / `control_r` and `alt_r`.
#[verifier::rlimit(50)]
pub proof fn lemma_named_keys_are_distinct(a: Seq<char>, b: Seq<char>)
    ensures
        named_key(a) is Some && named_key(a) == named_key(b) && named_key(a) != Some(
            PttKey::ControlRight,
        ) ==> a == b,
        named_key(a) == Some(PttKey::Space) <==> a == "space"@,
        named_key(a) == Some(PttKey::ControlRight) <==> (a == "ctrl_r"@ || a == "control_r"@),
        named_key(a) == Some(PttKey::AltGr) <==> a == "alt_r"@,
{
    reveal_strlit("f1");
    reveal_strlit("f2");
    reveal_strlit("f3");
    reveal_strlit("f4");
    reveal_strlit("f5");
    reveal_strlit("f6");
    reveal_strlit("f7");
    reveal_strlit("f8");
    reveal_strlit("f9");
    reveal_strlit("f10");
    reveal_strlit("f11");
    reveal_strlit("f12");
    reveal_strlit("f13");
    reveal_strlit("f14");
    reveal_strlit("f15");
    reveal_strlit("f16");
    reveal_strlit("f17");
    reveal_strlit("f18");
    reveal_strlit("f19");
    reveal_strlit("f20");
    reveal_strlit("f21");
    reveal_strlit("f22");
    reveal_strlit("f23");
    reveal_strlit("f24");
    reveal_strlit("space");
    reveal_strlit("ctrl_r");
    reveal_strlit("control_r");
    reveal_strlit("alt_r");
    assert("f1"@.len() == 2 && "f1"@[0] == 'f');
    assert("f2"@.len() == 2 && "f2"@[0] == 'f');
    assert("f3"@.len() == 2 && "f3"@[0] == 'f');
    assert("f4"@.len() == 2 && "f4"@[0] == 'f');
    assert("f5"@.len() == 2 && "f5"@[0] == 'f');
    assert("f6"@.len() == 2 && "f6"@[0] == 'f');
    assert("f7"@.len() == 2 && "f7"@[0] == 'f');
    assert("f8"@.len() == 2 && "f8"@[0] == 'f');
    assert("f9"@.len() == 2 && "f9"@[0] == 'f');
    assert("f10"@.len() == 3 && "f10"@[0] == 'f');
    assert("f11"@.len() == 3 && "f11"@[0] == 'f');
    assert("f12"@.len() == 3 && "f12"@[0] == 'f');
    assert("space"@.len() == 5 && "space"@[0] == 's');
    assert("alt_r"@.len() == 5 && "alt_r"@[0] == 'a');
    assert("ctrl_r"@.len() == 6 && "ctrl_r"@[0] == 'c');
    assert("control_r"@.len() == 9 && "control_r"@[0] == 'c');
}

fn is_name(lower: &[char], name: &str) -> (b: bool)
    ensures
        b == (lower@ == name@),
{
    let n = chars_of(name);
    chars_equal(lower, n.as_slice())
}

fn named_key_of(lower: &[char]) -> (k: Option<PttKey>)
    ensures
        k == named_key(lower@),
{
    if is_name(lower, "f1") {
        Some(PttKey::F1)
    } else if is_name(lower, "f2") {
        Some(PttKey::F2)
    } else if is_name(lower, "f3") {
        Some(PttKey::F3)
    } else if is_name(lower, "f4") {
        Some(PttKey::F4)
    } else if is_name(lower, "f5") {
        Some(PttKey::F5)
    } else if is_name(lower, "f6") {
        Some(PttKey::F6)
    } else if is_name(lower, "f7") {
        Some(PttKey::F7)
    } else if is_name(lower, "f8") {
        Some(PttKey::F8)
    } else if is_name(lower, "f9") {
        Some(PttKey::F9)
    } else if is_name(lower, "f10") {
        Some(PttKey::F10)
    } else if is_name(lower, "f11") {
        Some(PttKey::F11)
    } else if is_name(lower, "f12") {
        Some(PttKey::F12)
    } else if is_name(lower, "space") {
        Some(PttKey::Space)
    } else if is_name(lower, "ctrl_r") {
        Some(PttKey::ControlRight)
    } else if is_name(lower, "control_r") {
        Some(PttKey::ControlRight)
    } else if is_name(lower, "alt_r") {
        Some(PttKey::AltGr)
    } else {
        None
    }
}

fn windows_code_of(lower: &[char]) -> (c: Option<u32>)
    ensures
        c == windows_function_key_code(lower@),
{
    if is_name(lower, "f13") {
        Some(0x7C)
    } else if is_name(lower, "f14") {
        Some(0x7D)
    } else if is_name(lower, "f15") {
        Some(0x7E)
    } else if is_name(lower, "f16") {
        Some(0x7F)
    } else if is_name(lower, "f17") {
        Some(0x80)
    } else if is_name(lower, "f18") {
        Some(0x81)
    } else if is_name(lower, "f19") {
        Some(0x82)
    } else if is_name(lower, "f20") {
        Some(0x83)
    } else if is_name(lower, "f21") {
        Some(0x84)
    } else if is_name(lower, "f22") {
        Some(0x85)
    } else if is_name(lower, "f23") {
        Some(0x86)
    } else if is_name(lower, "f24") {
        Some(0x87)
    } else {
        None
    }
}

fn linux_code_of(lower: &[char]) -> (c: Option<u32>)
    ensures
        c == linux_function_key_code(lower@),
{
    if is_name(lower, "f13") {
        Some(191)
    } else if is_name(lower, "f14") {
        Some(192)
    } else if is_name(lower, "f15") {
        Some(193)
    } else if is_name(lower, "f16") {
        Some(194)
    } else if is_name(lower, "f17") {
        Some(195)
    } else if is_name(lower, "f18") {
        Some(196)
    } else if is_name(lower, "f19") {
        Some(197)
    } else if is_name(lower, "f20") {
        Some(198)
    } else if is_name(lower, "f21") {
        Some(199)
    } else if is_name(lower, "f22") {
        Some(200)
    } else if is_name(lower, "f23") {
        Some(201)
    } else if is_name(lower, "f24") {
        Some(202)
    } else {
        None
    }
}

/// F13-F24 by native key code on `platform` (a lowercase name).
pub fn parse_extended_function_key(lower: &[char], platform: KeyPlatform) -> (k: Option<PttKey>)
    ensures
        k == (match extended_function_key_code(lower@, platform) {
            Some(code) => Some(PttKey::Unknown(code)),
            None => None,
        }),
{
    let code = match platform {
        KeyPlatform::Windows => windows_code_of(lower),
        KeyPlatform::Linux => linux_code_of(lower),
        KeyPlatform::Other => None,
    };
    match code {
        Some(c) => Some(PttKey::Unknown(c)),
        None => None,
    }
}

/// Maps a configured key name to its key.
pub fn parse_key(name: &str, platform: KeyPlatform) -> (k: Option<PttKey>)
    ensures
        k == parse_key_spec(name@, platform),
{
    let lower = to_ascii_lowercase(name);
    match named_key_of(lower.as_slice()) {
        Some(k) => Some(k),
        None => parse_extended_function_key(lower.as_slice(), platform),
    }
}

/// Why the listener could not be set up.
#[derive(Clone, Debug, PartialEq, Eq)]
pub enum ListenerError {
    /// The configured push-to-talk key is not one the listener knows.
    UnsupportedKey(String),
}

/// The push-to-talk listener's configuration: the key name as configured and
/// the key it stands for.
pub struct PttListener {
    key_name: String,
    target: PttKey,
}

impl PttListener {
    pub closed spec fn key_name_view(&self) -> Seq<char> {
        self.key_name@
    }

    pub closed spec fn target_view(&self) -> PttKey {
        self.target
    }

    /// Creates the listener, validating the configured PTT key name.
    pub fn new(key_name: &str, platform: KeyPlatform) -> (res: Result<PttListener, ListenerError>)
        ensures
            res is Ok <==> parse_key_spec(key_name@, platform) is Some,
            res matches Ok(l) ==> l.key_name_view() == key_name@ && Some(l.target_view())
                == parse_key_spec(key_name@, platform),
            res matches Err(ListenerError::UnsupportedKey(n)) ==> n@ == key_name@,
    {
        match parse_key(key_name, platform) {
            Some(target) => Ok(PttListener { key_name: key_name.to_owned(), target }),
            None => Err(ListenerError::UnsupportedKey(key_name.to_owned())),
        }
    }

    /// The key name as configured (carried in every key event).
    pub fn key_name(&self) -> (s: &str)
        ensures
            s@ == self.key_name_view(),
    {
        self.key_name.as_str()
    }

    /// The key to watch.
    pub fn target(&self) -> (k: PttKey)
        ensures
            k == self.target_view(),
    {
        self.target
    }

    /// What a key press (`pressed`) or release of `key` sends down the
    /// pipeline: an event carrying the configured key name when it is the
    /// watched key, nothing for any other key.
    pub fn event_for(&self, pressed: bool, key: PttKey) -> (ev: Option<KeyEvent>)
        ensures
            ev is Some <==> key == self.target_view(),
            ev matches Some(e) ==> e.key@ == self.key_name_view() && e.kind == (if pressed {
                KeyEventKind::Down
            } else {
                KeyEventKind::Up
            }),
    {
        if key == self.target {
            let kind = if pressed {
                KeyEventKind::Down
            } else {
                KeyEventKind::Up
            };
            Some(KeyEvent { kind, key: self.key_name.clone() })
        } else {
            None
        }
    }
}

} // verus!
