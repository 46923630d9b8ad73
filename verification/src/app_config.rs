//! Launch configuration read from the application properties: full or demo build
//! (the `HO-Demo` unlock token), which locales are offered (`HO-LangList`), and
//! whether an in-game "buy the full game" link appears (`HO-BuySetup` plus a
//! per-locale `HO-URL-xx`).

use vstd::prelude::*;
use crate::debug::DebugState;
use crate::text::{
    char_from_u32, prefix_chars, chars_of, string_of, trim_chars, contains_chars, chars_equal, spec_trim, contains_sub,
};

verus! {

broadcast use vstd::string::group_string_axioms;

/// The application properties as (name, value) character sequences.
pub open spec fn props_view(props: Seq<(String, String)>) -> Seq<(Seq<char>, Seq<char>)> {
    props.map_values(|p: (String, String)| (p.0@, p.1@))
}

/// The value of the first property named `name`, if any.
pub open spec fn prop_lookup(props: Seq<(Seq<char>, Seq<char>)>, name: Seq<char>) -> Option<
    Seq<char>,
>
    decreases props.len(),
{
    if props.len() == 0 {
        None
    } else if props[0].0 == name {
        Some(props[0].1)
    } else {
        prop_lookup(props.drop_first(), name)
    }
}

/// No property name occurs twice.
pub open spec fn names_distinct(props: Seq<(Seq<char>, Seq<char>)>) -> bool {
    forall|i: int, j: int| 0 <= i < j < props.len() ==> #[trigger] props[i].0 != #[trigger] props[j].0
}

/// An optional string by its characters.
pub open spec fn opt_chars(o: Option<String>) -> Option<Seq<char>> {
    match o {
        Some(s) => Some(s@),
        None => None,
    }
}

/// The launch configuration.
pub struct AppConfigState {
    /// The application properties (name, value), each name at most once (see
    /// [`AppConfigState::wf`]).
    pub app_properties: Vec<(String, String)>,
    /// Supported locale codes.
    pub locales: Vec<String>,
    /// The resolved per-locale buy URL, if any.
    pub buy_url: Option<String>,
    /// A buy link appears in the main menu.
    pub menu_buy_enabled: bool,
    /// A buy link appears on exit.
    pub exit_buy_enabled: bool,
    /// This is the full (not demo) build.
    pub full_version: bool,
    /// Which locales are offered.
    pub locale_enabled: Vec<bool>,
}

impl AppConfigState {
    /// The property map of this configuration.
    pub open spec fn props(&self) -> Seq<(Seq<char>, Seq<char>)> {
        props_view(self.app_properties@)
    }

    /// The property list is a map: no name occurs twice.
    pub open spec fn wf(&self) -> bool {
        names_distinct(self.props())
    }

    /// An empty configuration: no properties, no locales, nothing enabled.
    pub fn new() -> (s: Self)
        ensures
            s.wf(),
            s.app_properties@.len() == 0,
            s.locales@.len() == 0,
            s.buy_url is None,
            !s.menu_buy_enabled,
            !s.exit_buy_enabled,
            !s.full_version,
            s.locale_enabled@.len() == 0,
    {
        AppConfigState {
            app_properties: Vec::new(),
            locales: Vec::new(),
            buy_url: None,
            menu_buy_enabled: false,
            exit_buy_enabled: false,
            full_version: false,
            locale_enabled: Vec::new(),
        }
    }

    /// `midlet.get_app_property(name)`: the property's value, or `None`.
    pub fn get_app_property(&self, name: &str) -> (r: Option<String>)
        ensures
            opt_chars(r) == prop_lookup(self.props(), name@),
    {
        let key = String::from_str(name);
        let mut i: usize = 0;
        assert(self.props().skip(0) =~= self.props());
        while i < self.app_properties.len()
            invariant
                i <= self.app_properties@.len(),
                key@ == name@,
                prop_lookup(self.props(), name@) == prop_lookup(
                    self.props().skip(i as int),
                    name@,
                ),
            decreases self.app_properties@.len() - i,
        {
            let ghost rest = self.props().skip(i as int);
            assert(rest.drop_first() =~= self.props().skip(i + 1));
            if self.app_properties[i].0 == key {
                return Some(self.app_properties[i].1.clone());
            }
            i = i + 1;
        }
        None
    }

    /// Sets property `name` to `value`: replaces the first entry with that name, or
    /// adds one.
    pub fn set_app_property(&mut self, name: &str, value: &str)
        requires
            old(self).wf(),
        ensures
            final(self).wf(),
            prop_lookup(final(self).props(), name@) == Some(value@),
            forall|n: Seq<char>|
                n != name@ ==> prop_lookup(#[trigger] final(self).props(), n) == prop_lookup(
                    old(self).props(),
                    n,
                ),
            final(self).locales == old(self).locales,
            final(self).buy_url == old(self).buy_url,
            final(self).menu_buy_enabled == old(self).menu_buy_enabled,
            final(self).exit_buy_enabled == old(self).exit_buy_enabled,
            final(self).full_version == old(self).full_version,
            final(self).locale_enabled == old(self).locale_enabled,
    {
        let key = String::from_str(name);
        let val = String::from_str(value);
        let mut i: usize = 0;
        while i < self.app_properties.len()
            invariant
                i <= self.app_properties@.len(),
                *self == *old(self),
                old(self).wf(),
                key@ == name@,
                val@ == value@,
                forall|j: int| 0 <= j < i ==> self.props()[j].0 != name@,
            decreases self.app_properties@.len() - i,
        {
            assert(self.props()[i as int] == (self.app_properties@[i as int].0@, self.app_properties@[i as int].1@));
            if self.app_properties[i].0 == key {
                self.app_properties.set(i, (key, val));
                proof {
                    lemma_lookup_set(old(self).props(), i as int, name@, value@);
                    assert(self.props() =~= old(self).props().update(i as int, (name@, value@)));
                    assert forall|a: int, b: int| 0 <= a < b < self.props().len() implies #[trigger] self.props()[a].0
                        != #[trigger] self.props()[b].0 by {
                        assert(old(self).props()[a].0 != old(self).props()[b].0);
                    }
                }
                return;
            }
            i = i + 1;
        }
        self.app_properties.push((key, val));
        proof {
            lemma_lookup_push(old(self).props(), name@, value@);
            assert(self.props() =~= old(self).props().push((name@, value@)));
            assert forall|a: int, b: int| 0 <= a < b < self.props().len() implies #[trigger] self.props()[a].0
                != #[trigger] self.props()[b].0 by {
                if b < old(self).props().len() {
                    assert(old(self).props()[a].0 != old(self).props()[b].0);
                }
            }
        }
    }
}

impl Default for AppConfigState {
    fn default() -> (s: Self)
        ensures
            s.wf(),
            s.app_properties@.len() == 0,
            s.locales@.len() == 0,
            s.buy_url is None,
            !s.menu_buy_enabled,
            !s.exit_buy_enabled,
            !s.full_version,
            s.locale_enabled@.len() == 0,
    {
        AppConfigState::new()
    }
}

/// The property that names the demo-unlock token.
pub open spec fn demo_key() -> Seq<char> {
    "HO-Demo"@
}

/// The full build is the default; the `HO-Demo` property holding the unlock
/// token `BEJ8K52N7A` (surrounding blanks ignored) makes a demo build.
pub open spec fn spec_is_full_version(props: Seq<(Seq<char>, Seq<char>)>) -> bool {
    match prop_lookup(props, demo_key()) {
        Some(t) => spec_trim(t) != "BEJ8K52N7A"@,
        None => true,
    }
}

/// The property holding the buy URL for `locale`.
pub open spec fn url_key(locale: Seq<char>) -> Seq<char> {
    "HO-URL-"@ + locale
}

/// The property holding the buy-link label for `locale`.
pub open spec fn label_key(locale: Seq<char>) -> Seq<char> {
    "HO-Label-"@ + locale
}

/// The buy URL for `locale`: its `HO-URL-` property when set and non-empty.
pub open spec fn spec_resolve_buy_url(props: Seq<(Seq<char>, Seq<char>)>, locale: Seq<char>) -> Option<
    Seq<char>,
> {
    match prop_lookup(props, url_key(locale)) {
        Some(u) => if u.len() == 0 {
            None
        } else {
            Some(u)
        },
        None => None,
    }
}

/// A buy link is set up for the menu (`menu`) or for exit (`!menu`): `HO-BuySetup`
/// is non-empty and mentions `menu` (resp. `exit`), and the locale's URL is
/// non-empty.
pub open spec fn spec_is_buy_setup_enabled(
    props: Seq<(Seq<char>, Seq<char>)>,
    locale: Seq<char>,
    menu: bool,
) -> bool {
    match (prop_lookup(props, "HO-BuySetup"@), prop_lookup(props, url_key(locale))) {
        (Some(b), Some(u)) => b.len() > 0 && u.len() > 0 && contains_sub(
            b,
            if menu {
                "menu"@
            } else {
                "exit"@
            },
        ),
        _ => false,
    }
}

/// `is_full_version()`: true unless `HO-Demo` holds the demo-unlock token.
pub fn is_full_version(s: &AppConfigState) -> (r: bool)
    ensures
        r == spec_is_full_version(s.props()),
{
    let demo_token = s.get_app_property("HO-Demo");
    let mut full = true;
    match demo_token {
        Some(token) => {
            let trimmed = trim_chars(chars_of(token.as_str()).as_slice());
            let unlock = chars_of("BEJ8K52N7A");
            if chars_equal(trimmed.as_slice(), unlock.as_slice()) {
                full = false;
            }
        },
        None => {},
    }
    full
}

/// `init(midlet)`: resolves the full-version flag and mirrors it into the global
/// build flag.
pub fn init(s: &mut AppConfigState, debug: &mut DebugState)
    ensures
        final(s).full_version == spec_is_full_version(old(s).props()),
        final(debug).full_version == final(s).full_version,
        final(s).app_properties == old(s).app_properties,
        final(s).locales == old(s).locales,
        final(s).buy_url == old(s).buy_url,
        final(s).menu_buy_enabled == old(s).menu_buy_enabled,
        final(s).exit_buy_enabled == old(s).exit_buy_enabled,
        final(s).locale_enabled == old(s).locale_enabled,
{
    s.full_version = is_full_version(s);
    debug.full_version = s.full_version;
}

fn locale_key(prefix: &str, locale: &String) -> (r: String)
    ensures
        r@ == prefix@ + locale@,
{
    let mut key = String::from_str(prefix);
    key.append(locale.as_str());
    key
}

/// `resolve_buy_url()`: the locale's buy URL, or `None` when unset or empty.
pub fn resolve_buy_url(s: &AppConfigState, locale_index: i32) -> (r: Option<String>)
    requires
        0 <= locale_index < s.locales@.len(),
    ensures
        opt_chars(r) == spec_resolve_buy_url(s.props(), s.locales@[locale_index as int]@),
{
    let key = locale_key("HO-URL-", &s.locales[locale_index as usize]);
    let url = s.get_app_property(key.as_str());
    match url {
        None => None,
        Some(u) => {
            if u.as_str().is_empty() {
                None
            } else {
                Some(u)
            }
        },
    }
}

/// `is_buy_setup_enabled(menu)`: whether a buy link is set up for the menu (or, when
/// `!menu`, for exit).
pub fn is_buy_setup_enabled(s: &AppConfigState, locale_index: i32, menu: bool) -> (r: bool)
    requires
        0 <= locale_index < s.locales@.len(),
    ensures
        r == spec_is_buy_setup_enabled(s.props(), s.locales@[locale_index as int]@, menu),
{
    let buy_setup = s.get_app_property("HO-BuySetup");
    let key = locale_key("HO-URL-", &s.locales[locale_index as usize]);
    let url = s.get_app_property(key.as_str());
    let b = match buy_setup {
        None => return false,
        Some(b) => b,
    };
    if b.as_str().is_empty() {
        return false;
    }
    match url {
        None => return false,
        Some(u) => {
            if u.as_str().is_empty() {
                return false;
            }
        },
    }
    let hay = chars_of(b.as_str());
    if menu {
        let needle = chars_of("menu");
        contains_chars(hay.as_slice(), needle.as_slice())
    } else {
        let needle = chars_of("exit");
        contains_chars(hay.as_slice(), needle.as_slice())
    }
}

/// `apply()`: enables the menu and exit buy links that are set up (never disables
/// one) and resolves the buy URL for the current locale.
pub fn apply(s: &mut AppConfigState, locale_index: i32)
    requires
        0 <= locale_index < old(s).locales@.len(),
    ensures
        final(s).menu_buy_enabled == (old(s).menu_buy_enabled || spec_is_buy_setup_enabled(
            old(s).props(),
            old(s).locales@[locale_index as int]@,
            true,
        )),
        final(s).exit_buy_enabled == (old(s).exit_buy_enabled || spec_is_buy_setup_enabled(
            old(s).props(),
            old(s).locales@[locale_index as int]@,
            false,
        )),
        opt_chars(final(s).buy_url) == spec_resolve_buy_url(
            old(s).props(),
            old(s).locales@[locale_index as int]@,
        ),
        final(s).app_properties == old(s).app_properties,
        final(s).locales == old(s).locales,
        final(s).full_version == old(s).full_version,
        final(s).locale_enabled == old(s).locale_enabled,
{
    if is_buy_setup_enabled(s, locale_index, true) {
        s.menu_buy_enabled = true;
    }
    if is_buy_setup_enabled(s, locale_index, false) {
        s.exit_buy_enabled = true;
    }
    s.buy_url = resolve_buy_url(s, locale_index);
}

/// `show_full_version_link()`: full build with a menu buy link and a URL.
pub fn show_full_version_link(s: &AppConfigState) -> (r: bool)
    ensures
        r == (s.full_version && s.menu_buy_enabled && s.buy_url is Some),
{
    s.full_version && s.menu_buy_enabled && s.buy_url.is_some()
}

/// `show_demo_buy_link()`: demo build with a menu buy link and a URL.
pub fn show_demo_buy_link(s: &AppConfigState) -> (r: bool)
    ensures
        r == (!s.full_version && s.menu_buy_enabled && s.buy_url is Some),
{
    if s.full_version || !s.menu_buy_enabled || s.buy_url.is_none() {
        false
    } else {
        true
    }
}

/// `locale` is mentioned in the `HO-LangList` property.
pub open spec fn locale_listed(props: Seq<(Seq<char>, Seq<char>)>, locale: Seq<char>) -> bool {
    match prop_lookup(props, "HO-LangList"@) {
        Some(l) => contains_sub(l, locale),
        None => false,
    }
}

/// For each locale, whether `HO-LangList` mentions it.
pub open spec fn listed_flags(props: Seq<(Seq<char>, Seq<char>)>, locales: Seq<String>) -> Seq<
    bool,
> {
    Seq::new(locales.len(), |i: int| locale_listed(props, locales[i]@))
}

/// The number of `true` entries of `s`.
pub open spec fn count_true(s: Seq<bool>) -> nat
    decreases s.len(),
{
    if s.len() == 0 {
        0
    } else {
        count_true(s.drop_last()) + if s.last() {
            1nat
        } else {
            0nat
        }
    }
}

/// The index of the last `true` entry of `s`, or -1.
pub open spec fn last_true(s: Seq<bool>) -> int
    decreases s.len(),
{
    if s.len() == 0 {
        -1
    } else if s.last() {
        s.len() - 1
    } else {
        last_true(s.drop_last())
    }
}

/// `init_available_locales()`: marks the locales that `HO-LangList` mentions. With
/// exactly one match it returns that locale's index; otherwise -1, and when none
/// matches (or there is no list) every locale is enabled.
pub fn init_available_locales(s: &mut AppConfigState) -> (r: i32)
    requires
        old(s).locales@.len() <= i32::MAX,
    ensures
        ({
            let flags = listed_flags(old(s).props(), old(s).locales@);
            &&& count_true(flags) == 1 ==> r == last_true(flags) && final(s).locale_enabled@
                == flags
            &&& count_true(flags) > 1 ==> r == -1 && final(s).locale_enabled@ == flags
            &&& count_true(flags) == 0 ==> r == -1 && final(s).locale_enabled@ == Seq::new(
                flags.len(),
                |i: int| true,
            )
        }),
        final(s).app_properties == old(s).app_properties,
        final(s).locales == old(s).locales,
        final(s).buy_url == old(s).buy_url,
        final(s).menu_buy_enabled == old(s).menu_buy_enabled,
        final(s).exit_buy_enabled == old(s).exit_buy_enabled,
        final(s).full_version == old(s).full_version,
{
    let ghost flags = listed_flags(s.props(), s.locales@);
    let locale_count: usize = s.locales.len();
    let mut enabled: Vec<bool> = Vec::new();
    let mut k: usize = 0;
    while k < locale_count
        invariant
            k <= locale_count,
            locale_count == s.locales@.len(),
            enabled@ == Seq::new(k as nat, |i: int| false),
        decreases locale_count - k,
    {
        enabled.push(false);
        k = k + 1;
        assert(enabled@ =~= Seq::new(k as nat, |i: int| false));
    }
    let mut matched: i32 = 0;
    let mut last_match: i32 = -1;
    let lang_list = s.get_app_property("HO-LangList");
    match lang_list {
        Some(list) => {
            let hay = chars_of(list.as_str());
            let mut i: usize = 0;
            while i < locale_count
                invariant
                    i <= locale_count,
                    locale_count == s.locales@.len(),
                    locale_count <= i32::MAX,
                    flags == listed_flags(s.props(), s.locales@),
                    prop_lookup(s.props(), "HO-LangList"@) == Some(hay@),
                    enabled@.len() == locale_count,
                    forall|j: int| 0 <= j < i ==> enabled@[j] == flags[j],
                    forall|j: int| i <= j < locale_count ==> !enabled@[j],
                    matched == count_true(flags.take(i as int)),
                    last_match == last_true(flags.take(i as int)),
                decreases locale_count - i,
            {
                let needle = chars_of(s.locales[i].as_str());
                let hit = contains_chars(hay.as_slice(), needle.as_slice());
                assert(flags.take(i + 1).drop_last() =~= flags.take(i as int));
                assert(hit == flags[i as int]);
                proof {
                    lemma_count_true_le(flags.take(i as int));
                }
                if hit {
                    enabled.set(i, true);
                    last_match = i as i32;
                    matched = matched + 1;
                }
                i = i + 1;
            }
            assert(flags.take(locale_count as int) =~= flags);
            assert(enabled@ =~= flags);
        },
        None => {
            proof {
                lemma_no_list(flags);
            }
            assert(enabled@ =~= flags);
        },
    }
    if matched == 1 {
        s.locale_enabled = enabled;
        return last_match;
    }
    if matched != 0 {
        s.locale_enabled = enabled;
        return -1;
    }
    let mut i: usize = 0;
    while i < locale_count
        invariant
            i <= locale_count,
            enabled@.len() == locale_count,
            forall|j: int| 0 <= j < i ==> enabled@[j],
        decreases locale_count - i,
    {
        enabled.set(i, true);
        i = i + 1;
    }
    assert(enabled@ =~= Seq::new(flags.len(), |i: int| true));
    s.locale_enabled = enabled;
    -1
}

proof fn lemma_count_true_le(s: Seq<bool>)
    ensures
        count_true(s) <= s.len(),
    decreases s.len(),
{
    if s.len() > 0 {
        lemma_count_true_le(s.drop_last());
    }
}

proof fn lemma_no_list(flags: Seq<bool>)
    requires
        forall|j: int| 0 <= j < flags.len() ==> !flags[j],
    ensures
        count_true(flags) == 0,
        last_true(flags) == -1,
    decreases flags.len(),
{
    if flags.len() > 0 {
        lemma_no_list(flags.drop_last());
    }
}

/// The value of a hexadecimal digit.
pub open spec fn hex_digit_value(c: char) -> Option<int> {
    if '0' <= c && c <= '9' {
        Some(c as int - '0' as int)
    } else if 'a' <= c && c <= 'f' {
        Some(c as int - 'a' as int + 10)
    } else if 'A' <= c && c <= 'F' {
        Some(c as int - 'A' as int + 10)
    } else {
        None
    }
}

/// The value of a string of hexadecimal digits (0 for none).
pub open spec fn hex_digits_value(s: Seq<char>) -> Option<int>
    decreases s.len(),
{
    if s.len() == 0 {
        Some(0)
    } else {
        match (hex_digits_value(s.drop_last()), hex_digit_value(s.last())) {
            (Some(v), Some(d)) => Some(v * 16 + d),
            _ => None,
        }
    }
}

/// `Integer.parse_int(s, 16)`: an optional sign followed by at least one
/// hexadecimal digit; `None` is a `NumberFormatException`.
pub open spec fn parse_hex(s: Seq<char>) -> Option<int> {
    if s.len() > 0 && (s[0] == '-' || s[0] == '+') {
        if s.len() == 1 {
            None
        } else {
            match hex_digits_value(s.drop_first()) {
                Some(v) => Some(
                    if s[0] == '-' {
                        -v
                    } else {
                        v
                    },
                ),
                None => None,
            }
        }
    } else if s.len() == 0 {
        None
    } else {
        hex_digits_value(s)
    }
}

/// The UTF-16 code unit of the escape `\\u_xXXX` at index `k` of `buf`: the
/// value of its four hexadecimal characters as a `char` keeps it (modulo
/// 65536). `None` when no complete, well-formed escape starts there.
pub open spec fn escape_unit(buf: Seq<char>, k: int) -> Option<int> {
    if 0 <= k && k + 6 <= buf.len() && buf[k] == '\\' && buf[k + 1] == 'u' {
        match parse_hex(buf.subrange(k + 2, k + 6)) {
            Some(v) => Some(v % 65536),
            None => None,
        }
    } else {
        None
    }
}

/// A high surrogate code unit.
pub open spec fn is_high_surrogate(u: int) -> bool {
    0xD800 <= u < 0xDC00
}

/// A low surrogate code unit.
pub open spec fn is_low_surrogate(u: int) -> bool {
    0xDC00 <= u < 0xE000
}

/// The character that the escape at index `i` of `buf` decodes to, with the
/// number of characters of `buf` it takes: one escape of a unit that is no
/// surrogate (6), or the escapes of a high and a low surrogate one after the
/// other, which together encode one character (12). `None` when the escape is
/// malformed or leaves a surrogate unpaired.
pub open spec fn escape_at(buf: Seq<char>, i: int) -> Option<(char, int)> {
    match escape_unit(buf, i) {
        None => None,
        Some(u) => if is_high_surrogate(u) {
            match escape_unit(buf, i + 6) {
                Some(l) => if is_low_surrogate(l) {
                    Some((char_of(0x10000 + (u - 0xD800) * 1024 + (l - 0xDC00)), 12))
                } else {
                    None
                },
                None => None,
            }
        } else if is_low_surrogate(u) {
            None
        } else {
            Some((char_of(u), 6))
        },
    }
}

/// The character whose scalar value is `u`.
pub open spec fn char_of(u: int) -> char {
    choose|c: char| #[trigger] scalar_value(c) == u
}

/// The scalar value of a character.
pub open spec fn scalar_value(c: char) -> int {
    c as int
}

/// The escape decoder of the buy-link label, from the cursor at index `i`: each
/// `\u_xXXX` becomes one character, and a pair of escapes of a high and a low
/// surrogate becomes the one character they encode (see [`escape_at`]). `None`
/// when the label cannot be decoded (a trailing backslash, a truncated or
/// malformed escape, or an unpaired surrogate).
pub open spec fn unescape_from(buf: Seq<char>, i: int) -> Option<Seq<char>>
    decreases buf.len() - i,
{
    if i < 0 || i >= buf.len() {
        Some(buf)
    } else {
        let j = i + 1;
        if buf[i] == '\\' && j >= buf.len() {
            None
        } else if buf[i] == '\\' && buf[j] == 'u' {
            match escape_at(buf, i) {
                None => None,
                Some((c, n)) => {
                    let nb = buf.take(i) + seq![c] + buf.skip(i + n);
                    if j < nb.len() {
                        unescape_from(nb, j)
                    } else {
                        Some(nb)
                    }
                },
            }
        } else if j < buf.len() {
            unescape_from(buf, j)
        } else {
            Some(buf)
        }
    }
}

/// The number of UTF-16 code units that encode `c`.
pub open spec fn utf16_units(c: char) -> int {
    if (c as u32) >= 0x10000 {
        2
    } else {
        1
    }
}

/// `p` put in front of the text in `o`, if there is one.
pub open spec fn prepend(p: Seq<char>, o: Option<Seq<char>>) -> Option<Seq<char>> {
    match o {
        Some(t) => Some(p + t),
        None => None,
    }
}

/// The longest prefix of `s` that fits in `n` UTF-16 code units; `None` when the
/// cut after `n` units falls inside a character (between the two halves of a
/// surrogate pair).
pub open spec fn cap_units(s: Seq<char>, n: int) -> Option<Seq<char>>
    decreases s.len(),
{
    if s.len() == 0 || n <= 0 {
        Some(Seq::empty())
    } else if utf16_units(s[0]) <= n {
        prepend(seq![s[0]], cap_units(s.skip(1), n - utf16_units(s[0])))
    } else {
        None
    }
}

/// The buy-link label: the locale's `HO-Label-` property with its `\u_xXXX` escapes
/// decoded, capped at 16 UTF-16 code units (`None` where that cut falls inside a
/// character); the string-table fallback (`full` or `demo`
/// by build) when the property is unset or empty. `None` when the label cannot be
/// decoded.
pub open spec fn spec_resolve_buy_label(
    props: Seq<(Seq<char>, Seq<char>)>,
    locale: Seq<char>,
    full_version: bool,
    full: Seq<char>,
    demo: Seq<char>,
) -> Option<Seq<char>> {
    match prop_lookup(props, label_key(locale)) {
        Some(l) => if l.len() == 0 {
            Some(
                if full_version {
                    full
                } else {
                    demo
                },
            )
        } else if !contains_sub(l, "\\u"@) {
            cap_units(l, 16)
        } else {
            match unescape_from(l, 0) {
                Some(d) => cap_units(d, 16),
                None => None,
            }
        },
        None => Some(
            if full_version {
                full
            } else {
                demo
            },
        ),
    }
}

fn hex_digit(c: char) -> (r: Option<i32>)
    ensures
        r matches Some(d) ==> hex_digit_value(c) == Some(d as int),
        r is None ==> hex_digit_value(c) is None,
{
    if '0' <= c && c <= '9' {
        Some(c as i32 - '0' as i32)
    } else if 'a' <= c && c <= 'f' {
        Some(c as i32 - 'a' as i32 + 10)
    } else if 'A' <= c && c <= 'F' {
        Some(c as i32 - 'A' as i32 + 10)
    } else {
        None
    }
}

/// `Integer.parse_int` of the four characters `buf[start..start + 4]` in base 16.
fn parse_hex4(buf: &Vec<char>, start: usize) -> (r: Option<i32>)
    requires
        start + 4 <= buf@.len(),
    ensures
        r matches Some(v) ==> parse_hex(buf@.subrange(start as int, start + 4)) == Some(v as int),
        r is None ==> parse_hex(buf@.subrange(start as int, start + 4)) is None,
        r matches Some(v) ==> -65535 <= v <= 65535,
{
    let ghost s = buf@.subrange(start as int, start + 4);
    let n: usize = buf.len();
    let end: usize = start + 4;
    let first = buf[start];
    assert(s[0] == first);
    let signed = first == '-' || first == '+';
    let d0: usize = if signed { start + 1 } else { start };
    let ghost digits = if signed { s.drop_first() } else { s };
    let mut v: i32 = 0;
    let mut k: usize = d0;
    assert(digits.take(0) =~= Seq::<char>::empty());
    proof {
        lemma_pow16_small(0);
    }
    while k < end
        invariant
            d0 <= k <= end,
            end == start + 4,
            end <= buf@.len(),
            s[0] == first,
            signed == (first == '-' || first == '+'),
            signed ==> d0 == start + 1,
            !signed ==> d0 == start,
            s == buf@.subrange(start as int, start + 4),
            signed ==> digits == s.drop_first(),
            !signed ==> digits == s,
            hex_digits_value(digits.take(k - d0)) == Some(v as int),
            0 <= v <= pow16_bound(k - d0),
            pow16_bound(k - d0) <= 65535,
        decreases end - k,
    {
        let d = hex_digit(buf[k]);
        assert(digits.take(k - d0 + 1).drop_last() =~= digits.take(k - d0));
        assert(digits[k - d0] == buf@[k as int]);
        match d {
            None => {
                proof {
                    lemma_hex_none(digits, k - d0);
                }
                return None;
            },
            Some(dv) => {
                proof {
                    lemma_pow16_small((k - d0 + 1) as int);
                }
                v = v * 16 + dv;
            },
        }
        k = k + 1;
    }
    assert(digits.take(k - d0) =~= digits);
    if signed {
        if d0 == end {
            return None;
        }
        if first == '-' {
            Some(-v)
        } else {
            Some(v)
        }
    } else {
        Some(v)
    }
}

/// The largest value of `n` hexadecimal digits.
pub open spec fn pow16_bound(n: int) -> int
    decreases n,
{
    if n <= 0 {
        0
    } else {
        pow16_bound(n - 1) * 16 + 15
    }
}

proof fn lemma_pow16_small(n: int)
    requires
        0 <= n <= 4,
    ensures
        pow16_bound(n) <= 65535,
        pow16_bound(n) == if n == 0 { 0 } else { pow16_bound(n - 1) * 16 + 15 },
{
    reveal_with_fuel(pow16_bound, 6);
    assert(pow16_bound(4) == 65535);
}

proof fn lemma_hex_none(digits: Seq<char>, k: int)
    requires
        0 <= k < digits.len(),
        hex_digit_value(digits[k]) is None,
    ensures
        hex_digits_value(digits) is None,
    decreases digits.len(),
{
    if k < digits.len() - 1 {
        lemma_hex_none(digits.drop_last(), k);
    }
}

fn fallback_label(full_version: bool, full: &str, demo: &str) -> (r: String)
    ensures
        r@ == if full_version {
            full@
        } else {
            demo@
        },
{
    if full_version {
        String::from_str(full)
    } else {
        String::from_str(demo)
    }
}

fn cap16_string(chars: &Vec<char>) -> (r: Option<String>)
    ensures
        r is Some <==> cap_units(chars@, 16) is Some,
        r is Some ==> r.unwrap()@ == cap_units(chars@, 16).unwrap(),
{
    let n = chars.len();
    let mut i: usize = 0;
    let mut used: usize = 0;
    proof {
        assert(chars@.skip(0) =~= chars@);
        assert(chars@.take(0) + Seq::<char>::empty() =~= Seq::<char>::empty());
        match cap_units(chars@, 16) {
            Some(t) => assert(Seq::<char>::empty() + t =~= t),
            None => {},
        }
    }
    while i < n && used < 16
        invariant
            n == chars@.len(),
            i <= n,
            used <= 16,
            cap_units(chars@, 16) == prepend(chars@.take(i as int), cap_units(chars@.skip(i as int), 16 - used)),
        decreases n - i,
    {
        let c = chars[i];
        let u: usize = if (c as u32) >= 0x10000 { 2 } else { 1 };
        let ghost rest = chars@.skip(i as int);
        assert(rest[0] == c);
        assert(utf16_units(c) == u as int);
        if used + u > 16 {
            assert(cap_units(rest, 16 - used) is None);
            return None;
        }
        proof {
            assert(cap_units(rest, 16 - used) == prepend(seq![c], cap_units(rest.skip(1), 16 - used - u)));
            assert(rest.skip(1) =~= chars@.skip(i + 1));
            assert(chars@.take(i + 1) =~= chars@.take(i as int) + seq![c]);
            match cap_units(chars@.skip(i + 1), 16 - used - u) {
                Some(t) => assert(chars@.take(i as int) + (seq![c] + t) =~= chars@.take(i + 1) + t),
                None => {},
            }
        }
        i = i + 1;
        used = used + u;
    }
    proof {
        if i == n {
            assert(chars@.skip(n as int) =~= Seq::<char>::empty());
        }
        assert(cap_units(chars@.skip(i as int), 16 - used) == Some(Seq::<char>::empty()));
        assert(chars@.take(i as int) + Seq::<char>::empty() =~= chars@.take(i as int));
    }
    let p = prefix_chars(chars.as_slice(), i);
    Some(string_of(p.as_slice()))
}

/// `resolve_buy_label()`: the localized buy-link label (`HO-Label-xx`) with its
/// `\u_xXXX` escapes decoded and capped at 16 UTF-16 code units; `string_table_full` /
/// `string_table_demo` are the string-table fallbacks for an unset or empty
/// label.
#[verifier::rlimit(60)]
pub fn resolve_buy_label(
    s: &AppConfigState,
    locale_index: i32,
    string_table_full: &str,
    string_table_demo: &str,
) -> (r: String)
    requires
        0 <= locale_index < s.locales@.len(),
        spec_resolve_buy_label(
            s.props(),
            s.locales@[locale_index as int]@,
            s.full_version,
            string_table_full@,
            string_table_demo@,
        ) is Some,
    ensures
        r@ == spec_resolve_buy_label(
            s.props(),
            s.locales@[locale_index as int]@,
            s.full_version,
            string_table_full@,
            string_table_demo@,
        ).unwrap(),
{
    let key = locale_key("HO-Label-", &s.locales[locale_index as usize]);
    let label = match s.get_app_property(key.as_str()) {
        None => return fallback_label(s.full_version, string_table_full, string_table_demo),
        Some(l) => l,
    };
    if label.as_str().is_empty() {
        return fallback_label(s.full_version, string_table_full, string_table_demo);
    }
    let chars = chars_of(label.as_str());
    let esc = chars_of("\\u");
    if !contains_chars(chars.as_slice(), esc.as_slice()) {
        return cap16_string(&chars).unwrap();
    }
    let ghost orig = chars@;
    let mut buffer = chars;
    let mut i: usize = 0;
    loop
        invariant_except_break
            i < buffer@.len(),
            unescape_from(buffer@, i as int) == unescape_from(orig, 0),
        invariant
            unescape_from(orig, 0) is Some,
        ensures
            buffer@ == unescape_from(orig, 0).unwrap(),
        decreases buffer@.len() - i,
    {
        let len_now: usize = buffer.len();
        let at = i;
        let j = i + 1;
        let ghost before = buffer@;
        proof {
            lemma_unescape_step(before, at as int);
        }
        if buffer[at] == '\\' && buffer[j] == 'u' {
            let u = escape_unit_at(&buffer, at);
            let (c, n): (char, usize) = if 0xD800 <= u && u < 0xDC00 {
                let l = escape_unit_at(&buffer, at + 6);
                let cp: i32 = 0x10000 + (u - 0xD800) * 1024 + (l - 0xDC00);
                let c = char_from_u32(cp as u32).unwrap();
                assert(scalar_value(c) == cp as int);
                assert(c == char_of(cp as int));
                (c, 12)
            } else {
                let c = char_from_u32(u as u32).unwrap();
                assert(scalar_value(c) == u as int);
                assert(c == char_of(u as int));
                (c, 6)
            };
            assert(escape_at(before, at as int) == Some((c, n as int)));
            buffer = splice_char(&buffer, at, n, c);
        }
        i = j;
        if i >= buffer.len() {
            break;
        }
    }
    cap16_string(&buffer).unwrap()
}

proof fn lemma_unescape_step(buf: Seq<char>, i: int)
    requires
        0 <= i < buf.len(),
        unescape_from(buf, i) is Some,
    ensures
        buf[i] == '\\' ==> i + 1 < buf.len(),
        buf[i] == '\\' && buf[i + 1] == 'u' ==> {
            &&& escape_at(buf, i) is Some
            &&& ({
                let (c, n) = escape_at(buf, i).unwrap();
                let nb = buf.take(i) + seq![c] + buf.skip(i + n);
                unescape_from(buf, i) == if i + 1 < nb.len() {
                    unescape_from(nb, i + 1)
                } else {
                    Some(nb)
                }
            })
        },
        !(buf[i] == '\\' && buf[i + 1] == 'u') ==> unescape_from(buf, i) == if i + 1 < buf.len() {
            unescape_from(buf, i + 1)
        } else {
            Some(buf)
        },
{
}

/// `buf` with `n` characters from `at` replaced by `c`.
fn splice_char(buf: &Vec<char>, at: usize, n: usize, c: char) -> (r: Vec<char>)
    requires
        at + n <= buf@.len(),
    ensures
        r@ == buf@.take(at as int) + seq![c] + buf@.skip(at + n),
{
    let len = buf.len();
    let mut r: Vec<char> = Vec::new();
    let mut k: usize = 0;
    while k < at
        invariant
            k <= at,
            at + n <= len,
            len == buf@.len(),
            r@ == buf@.take(k as int),
        decreases at - k,
    {
        r.push(buf[k]);
        k = k + 1;
        assert(r@ =~= buf@.take(k as int));
    }
    r.push(c);
    let mut m: usize = at + n;
    while m < len
        invariant
            at + n <= m <= len,
            len == buf@.len(),
            r@ == buf@.take(at as int) + seq![c] + buf@.subrange(at + n, m as int),
        decreases len - m,
    {
        r.push(buf[m]);
        m = m + 1;
        assert(r@ =~= buf@.take(at as int) + seq![c] + buf@.subrange(at + n, m as int));
    }
    assert(buf@.subrange(at + n, len as int) =~= buf@.skip(at + n));
    r
}

/// The code unit of the escape at `k`, which the decoder has found well formed.
fn escape_unit_at(buf: &Vec<char>, k: usize) -> (u: i32)
    requires
        escape_unit(buf@, k as int) is Some,
    ensures
        u as int == escape_unit(buf@, k as int).unwrap(),
        0 <= u < 65536,
{
    let len = buf.len();
    assert(k + 6 <= len);
    let v = parse_hex4(buf, k + 2).unwrap();
    let u: i32 = if v < 0 { v + 65536 } else { v };
    assert(u == v % 65536);
    u
}

proof fn lemma_lookup_set(p: Seq<(Seq<char>, Seq<char>)>, i: int, name: Seq<char>, v: Seq<char>)
    requires
        0 <= i < p.len(),
        p[i].0 == name,
        forall|j: int| 0 <= j < i ==> p[j].0 != name,
    ensures
        prop_lookup(p.update(i, (name, v)), name) == Some(v),
        forall|n: Seq<char>|
            n != name ==> prop_lookup(#[trigger] p.update(i, (name, v)), n) == prop_lookup(p, n),
    decreases i,
{
    let pu = p.update(i, (name, v));
    if i > 0 {
        lemma_lookup_set(p.drop_first(), i - 1, name, v);
        assert(pu.drop_first() =~= p.drop_first().update(i - 1, (name, v)));
        assert forall|n: Seq<char>| n != name implies prop_lookup(#[trigger] p.update(i, (name, v)), n)
            == prop_lookup(p, n) by {
            assert(prop_lookup(p.drop_first().update(i - 1, (name, v)), n) == prop_lookup(
                p.drop_first(),
                n,
            ));
        }
    } else {
        assert(pu.drop_first() =~= p.drop_first());
    }
}

proof fn lemma_lookup_push(p: Seq<(Seq<char>, Seq<char>)>, name: Seq<char>, v: Seq<char>)
    requires
        forall|j: int| 0 <= j < p.len() ==> p[j].0 != name,
    ensures
        prop_lookup(p.push((name, v)), name) == Some(v),
        forall|n: Seq<char>|
            n != name ==> prop_lookup(#[trigger] p.push((name, v)), n) == prop_lookup(p, n),
    decreases p.len(),
{
    let pp = p.push((name, v));
    if p.len() > 0 {
        lemma_lookup_push(p.drop_first(), name, v);
        assert(pp.drop_first() =~= p.drop_first().push((name, v)));
        assert forall|n: Seq<char>| n != name implies prop_lookup(#[trigger] p.push((name, v)), n)
            == prop_lookup(p, n) by {
            assert(prop_lookup(p.drop_first().push((name, v)), n) == prop_lookup(p.drop_first(), n));
        }
    } else {
        assert(pp.drop_first() =~= p);
    }
}

} // verus!
