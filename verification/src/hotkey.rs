//! The global capture hotkey: from the configured fields to a modifier set and
//! a key.

use crate::text;
use global_hotkey::hotkey::HotKeyParseError;
use vstd::prelude::*;
use vstd::string::*;

verus! {

/// A hotkey: the bits of its modifier set and the name of its key, as the
/// `global_hotkey` crate has them.
#[derive(Debug, PartialEq, Eq)]
pub struct Hotkey {
    pub modifiers: u32,
    pub key: String,
}

impl Clone for Hotkey {
    fn clone(&self) -> (r: Hotkey)
        ensures
            r == *self,
    {
        Hotkey { modifiers: self.modifiers, key: self.key.clone() }
    }
}

/// The bit of Ctrl in a modifier set.
pub const CTRL: u32 = 0x8;

/// The bit of Super in a modifier set.
pub const SUPER: u32 = 0x2000;

/// The bits of Alt, Ctrl, Shift and Super.
pub const ALL_MODIFIERS: u32 = 0x2209;

/// The bits of the modifier set Ctrl and Shift.
pub const CTRL_SHIFT: u32 = 0x208;

impl Hotkey {
    /// Ctrl+Shift+S.
    pub open spec fn is_default(self) -> bool {
        &&& self.modifiers == CTRL_SHIFT
        &&& self.key@ == "KeyS"@
    }
}

/// The hotkey that steps in for one that cannot be used: Ctrl+Shift+S.
pub fn default_hotkey() -> (r: Hotkey)
    ensures
        r.is_default(),
{
    Hotkey { modifiers: CTRL_SHIFT, key: "KeyS".to_string() }
}

/// The `global_hotkey` crate's refusal of a combination.
#[verifier::external_type_specification]
#[verifier::external_body]
pub struct ExHotKeyParseError(global_hotkey::hotkey::HotKeyParseError);

/// The modifier bits and the key's name that `HotKey::from_str` reads out of a
/// combination, platform-dependent modifiers read as Ctrl; nothing if it
/// refuses the combination.
pub uninterp spec fn hotkey_of(combo: Seq<char>) -> Option<(u32, Seq<char>)>;

/// A text with its ASCII letters in upper case.
pub open spec fn upper(s: Seq<char>) -> Seq<char> {
    s.map_values(
        |c: char|
            if 'a' <= c <= 'z' {
                (c as u32 - 32) as char
            } else {
                c
            },
    )
}

/// The text is the name of a modifier that stands for Super on macOS and for
/// Ctrl elsewhere.
pub open spec fn is_platform_modifier(s: Seq<char>) -> bool {
    ||| upper(s) == "COMMANDORCONTROL"@
    ||| upper(s) == "COMMANDORCTRL"@
    ||| upper(s) == "CMDORCTRL"@
    ||| upper(s) == "CMDORCONTROL"@
}

/// `combo[i..j]` is one of the pieces between the plus signs.
pub open spec fn is_piece(combo: Seq<char>, i: int, j: int) -> bool {
    &&& 0 <= i <= j <= combo.len()
    &&& i == 0 || combo[i - 1] == '+'
    &&& j == combo.len() || combo[j] == '+'
    &&& !combo.subrange(i, j).contains('+')
}

/// One of the combination's pieces is a platform-dependent modifier.
pub open spec fn names_platform_modifier(combo: Seq<char>) -> bool {
    exists|i: int, j: int| #[trigger]
        is_piece(combo, i, j) && is_platform_modifier(text::trimmed(combo.subrange(i, j)))
}

/// The hotkey is what a combination stands for, on one platform or another:
/// a platform-dependent modifier may be Super where it is read as Ctrl.
pub open spec fn reads_as(h: Hotkey, combo: Seq<char>) -> bool {
    let (modifiers, key) = hotkey_of(combo)->0;
    &&& hotkey_of(combo) is Some
    &&& h.key@ == key
    &&& h.modifiers & ALL_MODIFIERS == h.modifiers
    &&& if names_platform_modifier(combo) {
        &&& modifiers & CTRL != 0
        &&& {
            ||| h.modifiers == modifiers
            ||| h.modifiers == modifiers | SUPER
            ||| h.modifiers == (modifiers & !CTRL) | SUPER
        }
    } else {
        h.modifiers == modifiers
    }
}

/// Parse a combination such as `Ctrl+Shift+S` with `HotKey::from_str`.
///
/// Claimed: whether it is accepted, and which key it names, depend on the text
/// alone; so do its modifiers, except that a platform-dependent one is Super on
/// macOS and Ctrl elsewhere. No modifiers but Alt, Ctrl, Shift and Super occur.
/// A text that is empty, or that ends where a key is due, is not accepted.
#[verifier::external_body]
fn parse_hotkey(combo: &str) -> (r: Result<Hotkey, HotKeyParseError>)
    ensures
        r is Ok <==> hotkey_of(combo@) is Some,
        r matches Ok(h) ==> reads_as(h, combo@),
        combo@.len() == 0 ==> r is Err,
        combo@.len() > 0 && combo@.last() == '+' ==> r is Err,
{
    let hotkey: global_hotkey::hotkey::HotKey = combo.parse()?;
    Ok(Hotkey { modifiers: hotkey.mods.bits(), key: hotkey.key.to_string() })
}

/// The combination that the configured fields describe: the trimmed modifiers
/// and the trimmed key joined by a plus sign, or the key alone without
/// modifiers.
pub open spec fn combo_of(modifiers: Seq<char>, key: Seq<char>) -> Seq<char> {
    if text::trimmed(modifiers).len() == 0 {
        text::trimmed(key)
    } else {
        text::trimmed(modifiers).push('+') + text::trimmed(key)
    }
}

/// Build the combination from the configured fields.
pub fn hotkey_combo(modifiers: &str, key: &str) -> (r: String)
    ensures
        r@ == combo_of(modifiers@, key@),
{
    let mods = modifiers.trim();
    let main = key.trim();
    if mods.is_empty() {
        main.to_string()
    } else {
        let mut combo = mods.to_string();
        combo.append("+");
        combo.append(main);
        proof {
            reveal_strlit("+");
            assert(combo@ =~= combo_of(modifiers@, key@));
        }
        combo
    }
}

/// Which hotkey the application registers.
#[derive(Debug, PartialEq, Eq)]
pub enum HotkeyChoice {
    /// The configured one.
    Configured(Hotkey),
    /// [`default_hotkey`], because no key is configured.
    NoKey,
    /// [`default_hotkey`], because the configured combination is not understood.
    NotUnderstood,
}

/// Decide on the hotkey from what parsing the combination gave.
pub fn resolve_hotkey(parsed: Result<Hotkey, HotKeyParseError>, key: &str) -> (r: HotkeyChoice)
    ensures
        r == match parsed {
            Ok(hotkey) => HotkeyChoice::Configured(hotkey),
            Err(_) => if text::trimmed(key@).len() == 0 {
                HotkeyChoice::NoKey
            } else {
                HotkeyChoice::NotUnderstood
            },
        },
{
    match parsed {
        Ok(hotkey) => HotkeyChoice::Configured(hotkey),
        Err(_) => if key.trim().is_empty() {
            HotkeyChoice::NoKey
        } else {
            HotkeyChoice::NotUnderstood
        },
    }
}

/// Decide on the hotkey from the configured fields. Without a key, or with a
/// combination that is not understood, the default is used.
///
/// Which of Ctrl and Super a platform-dependent name stands for is left unsaid.
pub fn choose_hotkey(modifiers: &str, key: &str) -> (r: HotkeyChoice)
    ensures
        r is Configured <==> hotkey_of(combo_of(modifiers@, key@)) is Some,
        r matches HotkeyChoice::Configured(h) ==> reads_as(h, combo_of(modifiers@, key@)),
        r is NoKey <==> text::trimmed(key@).len() == 0,
        r is NotUnderstood <==> text::trimmed(key@).len() > 0 && hotkey_of(
            combo_of(modifiers@, key@),
        ) is None,
{
    let combo = hotkey_combo(modifiers, key);
    let parsed = parse_hotkey(combo.as_str());
    assert(text::trimmed(key@).len() == 0 && text::trimmed(modifiers@).len() > 0 ==> combo@.last()
        == '+');
    resolve_hotkey(parsed, key)
}

/// A combination with a platform-dependent modifier gives a hotkey with Ctrl or
/// Super, on every platform.
pub proof fn law_platform_modifier_is_ctrl_or_super(h: Hotkey, combo: Seq<char>)
    requires
        reads_as(h, combo),
        names_platform_modifier(combo),
    ensures
        h.modifiers & CTRL != 0 || h.modifiers & SUPER != 0,
{
    let m = (hotkey_of(combo)->0).0;
    assert((m | 0x2000u32) & 0x2000 != 0) by (bit_vector);
    assert(((m & !0x8u32) | 0x2000u32) & 0x2000 != 0) by (bit_vector);
}

/// The hotkey to register after this many registrations have failed: first the
/// chosen one, then the default, then none.
pub fn hotkey_to_register(choice: &HotkeyChoice, failures: u32) -> (r: Option<Hotkey>)
    ensures
        r is Some <==> failures < 2,
        r matches Some(h) ==> match *choice {
            HotkeyChoice::Configured(configured) if failures == 0 => h == configured,
            _ => h.is_default(),
        },
{
    if failures >= 2 {
        return None;
    }
    match choice {
        HotkeyChoice::Configured(configured) => if failures == 0 {
            Some(configured.clone())
        } else {
            Some(default_hotkey())
        },
        HotkeyChoice::NoKey => Some(default_hotkey()),
        HotkeyChoice::NotUnderstood => Some(default_hotkey()),
    }
}

/// The combination holds the trimmed modifiers, a plus sign and the trimmed
/// key, one after the other and nothing else; without modifiers, the key alone.
pub proof fn law_combination_joins_its_fields(modifiers: Seq<char>, key: Seq<char>)
    ensures
        ({
            let combo = combo_of(modifiers, key);
            let m = text::trimmed(modifiers);
            let k = text::trimmed(key);
            &&& m.len() == 0 ==> combo == k
            &&& m.len() > 0 ==> {
                &&& combo.len() == m.len() + 1 + k.len()
                &&& combo.take(m.len() as int) == m
                &&& combo[m.len() as int] == '+'
                &&& combo.skip(m.len() as int + 1) == k
            }
        }),
{
    let combo = combo_of(modifiers, key);
    let m = text::trimmed(modifiers);
    let k = text::trimmed(key);
    if m.len() > 0 {
        assert(combo.take(m.len() as int) =~= m);
        assert(combo.skip(m.len() as int + 1) =~= k);
    }
}

/// A combination stands for one key on every platform, and without a
/// platform-dependent modifier for one hotkey: two readings of it agree. Where
/// they differ, they do so in Ctrl and Super alone.
pub proof fn law_readings_agree(a: Hotkey, b: Hotkey, combo: Seq<char>)
    requires
        reads_as(a, combo),
        reads_as(b, combo),
    ensures
        a.key@ == b.key@,
        !names_platform_modifier(combo) ==> a.modifiers == b.modifiers,
        a.modifiers & !0x2008u32 == b.modifiers & !0x2008u32,
        a.modifiers & !0x2209u32 == 0,
{
    let m = (hotkey_of(combo)->0).0;
    let x = a.modifiers;
    assert((m | 0x2000u32) & !0x2008u32 == m & !0x2008u32) by (bit_vector);
    assert(((m & !0x8u32) | 0x2000u32) & !0x2008u32 == m & !0x2008u32) by (bit_vector);
    assert((x & 0x2209u32 == x) ==> x & !0x2209u32 == 0) by (bit_vector);
}

} // verus!
