//! Extraction of theme blocks from a CSS file.
//!
//! The file's text is handed in; this module parses the
//! `@plugin "daisyui/theme" { ... }` blocks, reads each block's `name` entry
//! and its `--color-*` declarations, and returns the complete themes. The
//! grammar is stated as spec functions; the parser is proved to compute
//! exactly what they describe.

use vstd::prelude::*;

use crate::strutil::{matches_at, matches_at_exec};

verus! {

/// One extracted theme: its name and the five key colors.
pub struct Theme {
    pub name: String,
    pub primary: String,
    pub secondary: String,
    pub accent: String,
    pub base100: String,
    pub base_content: String,
}

/// The mathematical value of a theme.
pub struct ThemeView {
    pub name: Seq<char>,
    pub primary: Seq<char>,
    pub secondary: Seq<char>,
    pub accent: Seq<char>,
    pub base100: Seq<char>,
    pub base_content: Seq<char>,
}

impl View for Theme {
    type V = ThemeView;

    open spec fn view(&self) -> ThemeView {
        ThemeView {
            name: self.name@,
            primary: self.primary@,
            secondary: self.secondary@,
            accent: self.accent@,
            base100: self.base100@,
            base_content: self.base_content@,
        }
    }
}

impl DeepView for Theme {
    type V = ThemeView;

    open spec fn deep_view(&self) -> ThemeView {
        self.view()
    }
}

/// The color slots a block fills while it is scanned.
pub struct ColorsView {
    pub primary: Seq<char>,
    pub secondary: Seq<char>,
    pub accent: Seq<char>,
    pub base100: Seq<char>,
    pub base_content: Seq<char>,
}

/// A color property key a block may declare.
#[derive(Clone, Copy, Debug, PartialEq, Eq, Structural)]
pub enum ColorKey {
    Primary,
    Secondary,
    Accent,
    Base100,
    BaseContent,
    Contrast,
}

/// ASCII whitespace, as the grammar skips it.
pub open spec fn is_space(c: char) -> bool {
    c == ' ' || c == '\t' || c == '\n' || c == '\r' || c == '\u{b}' || c == '\u{c}'
}

/// The first position at or after `i` holding a non-whitespace character
/// (or the end).
pub open spec fn skip_ws_spec(s: Seq<char>, i: int) -> int
    decreases s.len() - i,
{
    if 0 <= i && i < s.len() && is_space(s[i]) {
        skip_ws_spec(s, i + 1)
    } else {
        i
    }
}

/// The first position at or after `i` where the (nonempty) needle occurs.
pub open spec fn find_from(h: Seq<char>, n: Seq<char>, i: int) -> Option<int>
    decreases h.len() - i,
{
    if i < 0 || n.len() == 0 || i + n.len() > h.len() {
        None
    } else if h.subrange(i, i + n.len()) == n {
        Some(i)
    } else {
        find_from(h, n, i + 1)
    }
}

/// `skip_ws_spec` stays between `i` and the end.
pub proof fn lemma_skip_ws_bounds(s: Seq<char>, i: int)
    requires
        0 <= i <= s.len(),
    ensures
        i <= skip_ws_spec(s, i) <= s.len(),
    decreases s.len() - i,
{
    if i < s.len() && is_space(s[i]) {
        lemma_skip_ws_bounds(s, i + 1);
    }
}

/// A found needle lies at or after `i`, inside the haystack.
pub proof fn lemma_find_from_bounds(h: Seq<char>, n: Seq<char>, i: int)
    ensures
        find_from(h, n, i) matches Some(p) ==> i <= p && 0 <= p && p + n.len() <= h.len()
            && matches_at(h, n, p),
    decreases h.len() - i,
{
    if i < 0 || n.len() == 0 || i + n.len() > h.len() {
    } else if h.subrange(i, i + n.len()) == n {
    } else {
        lemma_find_from_bounds(h, n, i + 1);
    }
}

/// The text without leading whitespace.
pub open spec fn trim_start_spec(s: Seq<char>) -> Seq<char>
    decreases s.len(),
{
    if s.len() > 0 && is_space(s[0]) {
        trim_start_spec(s.drop_first())
    } else {
        s
    }
}

/// The text without trailing whitespace.
pub open spec fn trim_end_spec(s: Seq<char>) -> Seq<char>
    decreases s.len(),
{
    if s.len() > 0 && is_space(s.last()) {
        trim_end_spec(s.drop_last())
    } else {
        s
    }
}

/// The text without a matching pair of surrounding quote characters.
pub open spec fn strip_quote_spec(s: Seq<char>, q: char) -> Seq<char> {
    if s.len() >= 2 && s[0] == q && s.last() == q {
        s.subrange(1, s.len() - 1)
    } else {
        s
    }
}

/// A declaration's value, cleaned: trimmed, then double quotes stripped,
/// then single quotes stripped.
pub open spec fn clean_value_spec(s: Seq<char>) -> Seq<char> {
    strip_quote_spec(strip_quote_spec(trim_end_spec(trim_start_spec(s)), '"'), '\'')
}

/// The color key declared at position `k`, where one is.
pub open spec fn key_at(s: Seq<char>, k: int) -> Option<ColorKey> {
    if matches_at(s, "primary"@, k) {
        Some(ColorKey::Primary)
    } else if matches_at(s, "secondary"@, k) {
        Some(ColorKey::Secondary)
    } else if matches_at(s, "accent"@, k) {
        Some(ColorKey::Accent)
    } else if matches_at(s, "base-100"@, k) {
        Some(ColorKey::Base100)
    } else if matches_at(s, "base-content"@, k) {
        Some(ColorKey::BaseContent)
    } else if matches_at(s, "contrast"@, k) {
        Some(ColorKey::Contrast)
    } else {
        None
    }
}

/// How many characters a key spells.
pub open spec fn key_len(key: ColorKey) -> int {
    match key {
        ColorKey::Primary => 7,
        ColorKey::Secondary => 9,
        ColorKey::Accent => 6,
        ColorKey::Base100 => 8,
        ColorKey::BaseContent => 12,
        ColorKey::Contrast => 8,
    }
}

/// One declaration applied to the slots: each key overwrites its slot;
/// `contrast` only fills `base_content` where it is still empty.
pub open spec fn apply_color(acc: ColorsView, key: ColorKey, v: Seq<char>) -> ColorsView {
    match key {
        ColorKey::Primary => ColorsView { primary: v, ..acc },
        ColorKey::Secondary => ColorsView { secondary: v, ..acc },
        ColorKey::Accent => ColorsView { accent: v, ..acc },
        ColorKey::Base100 => ColorsView { base100: v, ..acc },
        ColorKey::BaseContent => ColorsView { base_content: v, ..acc },
        ColorKey::Contrast => if acc.base_content.len() == 0 {
            ColorsView { base_content: v, ..acc }
        } else {
            acc
        },
    }
}

/// All slots empty.
pub open spec fn empty_colors() -> ColorsView {
    ColorsView {
        primary: Seq::<char>::empty(),
        secondary: Seq::<char>::empty(),
        accent: Seq::<char>::empty(),
        base100: Seq::<char>::empty(),
        base_content: Seq::<char>::empty(),
    }
}

/// Scans a block body from `i` for `--color-<key> : <value> ;` declarations
/// and applies each in order. A candidate that fails to parse is skipped by
/// one character; a parsed declaration resumes after its semicolon.
pub open spec fn scan_colors(s: Seq<char>, i: int, acc: ColorsView) -> ColorsView
    decreases s.len() - i,
    when 0 <= i
    via scan_colors_decreases
{
    match find_from(s, "--color-"@, i) {
        None => acc,
        Some(p) => {
            match key_at(s, p + 8) {
                None => scan_colors(s, p + 1, acc),
                Some(key) => {
                    let c1 = skip_ws_spec(s, p + 8 + key_len(key));
                    if c1 < s.len() && s[c1] == ':' {
                        let vstart = skip_ws_spec(s, c1 + 1);
                        match find_from(s, ";"@, vstart) {
                            None => scan_colors(s, p + 1, acc),
                            Some(vend) => {
                                if vend > c1 + 1 {
                                    scan_colors(
                                        s,
                                        vend + 1,
                                        apply_color(acc, key, clean_value_spec(s.subrange(vstart, vend))),
                                    )
                                } else {
                                    scan_colors(s, p + 1, acc)
                                }
                            },
                        }
                    } else {
                        scan_colors(s, p + 1, acc)
                    }
                },
            }
        },
    }
}

#[via_fn]
proof fn scan_colors_decreases(s: Seq<char>, i: int, acc: ColorsView) {
    reveal_strlit("--color-");
    reveal_strlit("primary");
    reveal_strlit("secondary");
    reveal_strlit("accent");
    reveal_strlit("base-100");
    reveal_strlit("base-content");
    reveal_strlit("contrast");
    reveal_strlit(";");
    lemma_find_from_bounds(s, "--color-"@, i);
    match find_from(s, "--color-"@, i) {
        None => {},
        Some(p) => {
            match key_at(s, p + 8) {
                None => {},
                Some(key) => {
                    lemma_skip_ws_bounds(s, p + 8 + key_len(key));
                    let c1 = skip_ws_spec(s, p + 8 + key_len(key));
                    if c1 < s.len() && s[c1] == ':' {
                        lemma_skip_ws_bounds(s, c1 + 1);
                        lemma_find_from_bounds(s, ";"@, skip_ws_spec(s, c1 + 1));
                    }
                },
            }
        },
    }
}

/// The first `name : "<text>"` entry at or after `i` in a block body.
pub open spec fn scan_name(s: Seq<char>, i: int) -> Option<Seq<char>>
    decreases s.len() - i,
    when 0 <= i
    via scan_name_decreases
{
    match find_from(s, "name"@, i) {
        None => None,
        Some(p) => {
            let c1 = skip_ws_spec(s, p + 4);
            if c1 < s.len() && s[c1] == ':' {
                let q = skip_ws_spec(s, c1 + 1);
                if q < s.len() && s[q] == '"' {
                    match find_from(s, "\""@, q + 1) {
                        None => scan_name(s, p + 1),
                        Some(e) => {
                            if e > q + 1 {
                                Some(s.subrange(q + 1, e))
                            } else {
                                scan_name(s, p + 1)
                            }
                        },
                    }
                } else {
                    scan_name(s, p + 1)
                }
            } else {
                scan_name(s, p + 1)
            }
        },
    }
}

#[via_fn]
proof fn scan_name_decreases(s: Seq<char>, i: int) {
    reveal_strlit("name");
    reveal_strlit("\"");
    lemma_find_from_bounds(s, "name"@, i);
}

/// The theme a block body yields: its name entry, and the five colors once
/// every slot is filled — a block with a missing name or a missing color is
/// skipped.
pub open spec fn block_theme(body: Seq<char>) -> Option<ThemeView> {
    match scan_name(body, 0) {
        None => None,
        Some(name) => {
            let colors = scan_colors(body, 0, empty_colors());
            if colors.primary.len() > 0 && colors.secondary.len() > 0 && colors.accent.len() > 0
                && colors.base100.len() > 0 && colors.base_content.len() > 0 {
                Some(
                    ThemeView {
                        name: name,
                        primary: colors.primary,
                        secondary: colors.secondary,
                        accent: colors.accent,
                        base100: colors.base100,
                        base_content: colors.base_content,
                    },
                )
            } else {
                None
            }
        },
    }
}

/// Scans the whole text from `i` for `@plugin "daisyui/theme" { ... }`
/// blocks, collecting the themes of the complete ones, in order. A block
/// body runs to the first closing brace; scanning resumes after it.
pub open spec fn scan_themes(css: Seq<char>, i: int, acc: Seq<ThemeView>) -> Seq<ThemeView>
    decreases css.len() - i,
    when 0 <= i
    via scan_themes_decreases
{
    match find_from(css, "@plugin"@, i) {
        None => acc,
        Some(p) => {
            let a = skip_ws_spec(css, p + 7);
            if matches_at(css, "\"daisyui/theme\""@, a) {
                let b = skip_ws_spec(css, a + 15);
                if b < css.len() && css[b] == '{' {
                    let bstart = skip_ws_spec(css, b + 1);
                    match find_from(css, "}"@, bstart) {
                        None => scan_themes(css, p + 1, acc),
                        Some(bend) => {
                            let acc2 = match block_theme(css.subrange(bstart, bend)) {
                                Some(t) => acc.push(t),
                                None => acc,
                            };
                            scan_themes(css, bend + 1, acc2)
                        },
                    }
                } else {
                    scan_themes(css, p + 1, acc)
                }
            } else {
                scan_themes(css, p + 1, acc)
            }
        },
    }
}

#[via_fn]
proof fn scan_themes_decreases(css: Seq<char>, i: int, acc: Seq<ThemeView>) {
    reveal_strlit("@plugin");
    reveal_strlit("\"daisyui/theme\"");
    reveal_strlit("}");
    lemma_find_from_bounds(css, "@plugin"@, i);
    match find_from(css, "@plugin"@, i) {
        None => {},
        Some(p) => {
            let a = skip_ws_spec(css, p + 7);
            lemma_skip_ws_bounds(css, p + 7);
            if matches_at(css, "\"daisyui/theme\""@, a) {
                lemma_skip_ws_bounds(css, a + 15);
                let b = skip_ws_spec(css, a + 15);
                if b < css.len() && css[b] == '{' {
                    lemma_skip_ws_bounds(css, b + 1);
                    lemma_find_from_bounds(css, "}"@, skip_ws_spec(css, b + 1));
                }
            }
        },
    }
}

/// The themes the whole text yields.
pub open spec fn themes_of(css: Seq<char>) -> Seq<ThemeView> {
    scan_themes(css, 0, Seq::<ThemeView>::empty())
}

/// The color slots while a block is scanned.
struct Colors {
    primary: String,
    secondary: String,
    accent: String,
    base100: String,
    base_content: String,
}

impl View for Colors {
    type V = ColorsView;

    closed spec fn view(&self) -> ColorsView {
        ColorsView {
            primary: self.primary@,
            secondary: self.secondary@,
            accent: self.accent@,
            base100: self.base100@,
            base_content: self.base_content@,
        }
    }
}

fn is_space_exec(c: char) -> (r: bool)
    ensures
        r == is_space(c),
{
    c == ' ' || c == '\t' || c == '\n' || c == '\r' || c == '\u{b}' || c == '\u{c}'
}

/// Advances past whitespace.
fn skip_ws(s: &str, i: usize) -> (r: usize)
    requires
        i <= s@.len(),
    ensures
        r as int == skip_ws_spec(s@, i as int),
        i <= r <= s@.len(),
    decreases s@.len() - i,
{
    let len = s.unicode_len();
    if i < len && is_space_exec(s.get_char(i)) {
        skip_ws(s, i + 1)
    } else {
        i
    }
}

/// Finds the needle at or after `i`.
fn find_in(h: &str, n: &str, i: usize) -> (r: Option<usize>)
    requires
        i <= h@.len(),
    ensures
        r is Some <==> find_from(h@, n@, i as int) is Some,
        r matches Some(p) ==> Some(p as int) == find_from(h@, n@, i as int) && i <= p && p
            + n@.len() <= h@.len(),
    decreases h@.len() - i,
{
    let hlen = h.unicode_len();
    let nlen = n.unicode_len();
    if nlen == 0 || nlen > hlen || i > hlen - nlen {
        None
    } else if matches_at_exec(h, n, i) {
        Some(i)
    } else {
        find_in(h, n, i + 1)
    }
}

/// Drops leading whitespace.
fn trim_start_exec(s: &str) -> (r: &str)
    ensures
        r@ == trim_start_spec(s@),
    decreases s@.len(),
{
    let len = s.unicode_len();
    if len > 0 && is_space_exec(s.get_char(0)) {
        let t = s.substring_char(1, len);
        proof {
            assert(t@ =~= s@.drop_first());
        }
        trim_start_exec(t)
    } else {
        s
    }
}

/// Drops trailing whitespace.
fn trim_end_exec(s: &str) -> (r: &str)
    ensures
        r@ == trim_end_spec(s@),
    decreases s@.len(),
{
    let len = s.unicode_len();
    if len > 0 && is_space_exec(s.get_char(len - 1)) {
        let t = s.substring_char(0, len - 1);
        proof {
            assert(t@ =~= s@.drop_last());
        }
        trim_end_exec(t)
    } else {
        s
    }
}

/// Strips one matching pair of surrounding quotes.
fn strip_quote_exec(s: &str, q: char) -> (r: &str)
    ensures
        r@ == strip_quote_spec(s@, q),
{
    let len = s.unicode_len();
    if len >= 2 && s.get_char(0) == q && s.get_char(len - 1) == q {
        s.substring_char(1, len - 1)
    } else {
        s
    }
}

/// Cleans a declaration value: trim, then strip double and single quotes.
fn clean_value(s: &str) -> (r: String)
    ensures
        r@ == clean_value_spec(s@),
{
    let t = strip_quote_exec(strip_quote_exec(trim_end_exec(trim_start_exec(s)), '"'), '\'');
    String::from_str(t)
}

/// Reads the color key declared at `k`.
fn key_at_exec(s: &str, k: usize) -> (r: Option<ColorKey>)
    requires
        k <= s@.len(),
    ensures
        r == key_at(s@, k as int),
        r matches Some(key) ==> k + key_len(key) <= s@.len(),
{
    proof {
        reveal_strlit("primary");
        reveal_strlit("secondary");
        reveal_strlit("accent");
        reveal_strlit("base-100");
        reveal_strlit("base-content");
        reveal_strlit("contrast");
    }
    let len = s.unicode_len();
    if len >= 7 && k <= len - 7 && matches_at_exec(s, "primary", k) {
        Some(ColorKey::Primary)
    } else if len >= 9 && k <= len - 9 && matches_at_exec(s, "secondary", k) {
        Some(ColorKey::Secondary)
    } else if len >= 6 && k <= len - 6 && matches_at_exec(s, "accent", k) {
        Some(ColorKey::Accent)
    } else if len >= 8 && k <= len - 8 && matches_at_exec(s, "base-100", k) {
        Some(ColorKey::Base100)
    } else if len >= 12 && k <= len - 12 && matches_at_exec(s, "base-content", k) {
        Some(ColorKey::BaseContent)
    } else if len >= 8 && k <= len - 8 && matches_at_exec(s, "contrast", k) {
        Some(ColorKey::Contrast)
    } else {
        None
    }
}

/// The number of characters a key spells.
fn key_len_exec(key: ColorKey) -> (r: usize)
    ensures
        r as int == key_len(key),
{
    match key {
        ColorKey::Primary => 7,
        ColorKey::Secondary => 9,
        ColorKey::Accent => 6,
        ColorKey::Base100 => 8,
        ColorKey::BaseContent => 12,
        ColorKey::Contrast => 8,
    }
}

/// Applies one declaration to the slots.
fn apply_color_exec(acc: Colors, key: ColorKey, v: String) -> (r: Colors)
    ensures
        r@ == apply_color(acc@, key, v@),
{
    let mut acc = acc;
    match key {
        ColorKey::Primary => {
            acc.primary = v;
        },
        ColorKey::Secondary => {
            acc.secondary = v;
        },
        ColorKey::Accent => {
            acc.accent = v;
        },
        ColorKey::Base100 => {
            acc.base100 = v;
        },
        ColorKey::BaseContent => {
            acc.base_content = v;
        },
        ColorKey::Contrast => {
            if acc.base_content.as_str().unicode_len() == 0 {
                acc.base_content = v;
            }
        },
    }
    acc
}

/// Scans a block body for color declarations.
fn scan_colors_exec(s: &str, i: usize, acc: Colors) -> (r: Colors)
    requires
        i <= s@.len(),
    ensures
        r@ == scan_colors(s@, i as int, acc@),
    decreases s@.len() - i,
{
    proof {
        reveal_strlit("--color-");
        reveal_strlit(";");
    }
    let len = s.unicode_len();
    match find_in(s, "--color-", i) {
        None => acc,
        Some(p) => {
            match key_at_exec(s, p + 8) {
                None => scan_colors_exec(s, p + 1, acc),
                Some(key) => {
                    let kl = key_len_exec(key);
                    let c1 = skip_ws(s, p + 8 + kl);
                    if c1 < len && s.get_char(c1) == ':' {
                        let vstart = skip_ws(s, c1 + 1);
                        match find_in(s, ";", vstart) {
                            None => scan_colors_exec(s, p + 1, acc),
                            Some(vend) => {
                                if vend > c1 + 1 {
                                    let v = clean_value(s.substring_char(vstart, vend));
                                    scan_colors_exec(s, vend + 1, apply_color_exec(acc, key, v))
                                } else {
                                    scan_colors_exec(s, p + 1, acc)
                                }
                            },
                        }
                    } else {
                        scan_colors_exec(s, p + 1, acc)
                    }
                },
            }
        },
    }
}

/// Finds the first name entry of a block body.
fn scan_name_exec(s: &str, i: usize) -> (r: Option<String>)
    requires
        i <= s@.len(),
    ensures
        r is Some <==> scan_name(s@, i as int) is Some,
        r matches Some(name) ==> Some(name@) == scan_name(s@, i as int),
    decreases s@.len() - i,
{
    proof {
        reveal_strlit("name");
        reveal_strlit("\"");
    }
    match find_in(s, "name", i) {
        None => None,
        Some(p) => {
            let len = s.unicode_len();
            let c1 = skip_ws(s, p + 4);
            if c1 < len && s.get_char(c1) == ':' {
                let q = skip_ws(s, c1 + 1);
                if q < len && s.get_char(q) == '"' {
                    match find_in(s, "\"", q + 1) {
                        None => scan_name_exec(s, p + 1),
                        Some(e) => {
                            if e > q + 1 {
                                Some(String::from_str(s.substring_char(q + 1, e)))
                            } else {
                                scan_name_exec(s, p + 1)
                            }
                        },
                    }
                } else {
                    scan_name_exec(s, p + 1)
                }
            } else {
                scan_name_exec(s, p + 1)
            }
        },
    }
}

/// Extracts the theme of one block body, where it is complete.
fn block_theme_exec(body: &str) -> (r: Option<Theme>)
    ensures
        r is Some <==> block_theme(body@) is Some,
        r matches Some(t) ==> Some(t@) == block_theme(body@),
{
    match scan_name_exec(body, 0) {
        None => None,
        Some(name) => {
            let start = Colors {
                primary: String::new(),
                secondary: String::new(),
                accent: String::new(),
                base100: String::new(),
                base_content: String::new(),
            };
            proof {
                assert(start@.primary =~= Seq::<char>::empty());
                assert(start@.secondary =~= Seq::<char>::empty());
                assert(start@.accent =~= Seq::<char>::empty());
                assert(start@.base100 =~= Seq::<char>::empty());
                assert(start@.base_content =~= Seq::<char>::empty());
                assert(start@ == empty_colors());
            }
            let colors = scan_colors_exec(body, 0, start);
            if colors.primary.as_str().unicode_len() > 0 && colors.secondary.as_str().unicode_len()
                > 0 && colors.accent.as_str().unicode_len() > 0
                && colors.base100.as_str().unicode_len() > 0
                && colors.base_content.as_str().unicode_len() > 0 {
                Some(
                    Theme {
                        name,
                        primary: colors.primary,
                        secondary: colors.secondary,
                        accent: colors.accent,
                        base100: colors.base100,
                        base_content: colors.base_content,
                    },
                )
            } else {
                None
            }
        },
    }
}

/// Scans the text for theme blocks, collecting complete themes.
fn scan_themes_exec(css: &str, i: usize, acc: Vec<Theme>) -> (r: Vec<Theme>)
    requires
        i <= css@.len(),
    ensures
        r.deep_view() == scan_themes(css@, i as int, acc.deep_view()),
    decreases css@.len() - i,
{
    proof {
        reveal_strlit("@plugin");
        reveal_strlit("\"daisyui/theme\"");
        reveal_strlit("{");
        reveal_strlit("}");
    }
    match find_in(css, "@plugin", i) {
        None => acc,
        Some(p) => {
            let len = css.unicode_len();
            let a = skip_ws(css, p + 7);
            let lit_ok = if len >= 15 && a <= len - 15 {
                matches_at_exec(css, "\"daisyui/theme\"", a)
            } else {
                false
            };
            if lit_ok {
                let b = skip_ws(css, a + 15);
                if b < len && css.get_char(b) == '{' {
                    let bstart = skip_ws(css, b + 1);
                    match find_in(css, "}", bstart) {
                        None => scan_themes_exec(css, p + 1, acc),
                        Some(bend) => {
                            let body = css.substring_char(bstart, bend);
                            let mut acc2 = acc;
                            let ghost accg = acc2.deep_view();
                            match block_theme_exec(body) {
                                Some(t) => {
                                    let ghost tv = t@;
                                    acc2.push(t);
                                    proof {
                                        assert(acc2.deep_view() =~= accg.push(tv));
                                    }
                                },
                                None => {},
                            }
                            scan_themes_exec(css, bend + 1, acc2)
                        },
                    }
                } else {
                    scan_themes_exec(css, p + 1, acc)
                }
            } else {
                scan_themes_exec(css, p + 1, acc)
            }
        },
    }
}

/// Extracts the complete themes of a CSS text, in order of appearance.
pub fn api_themes(css: &str) -> (r: Vec<Theme>)
    ensures
        r.deep_view() == themes_of(css@),
{
    let out: Vec<Theme> = Vec::new();
    proof {
        assert(out.deep_view() =~= Seq::<ThemeView>::empty());
    }
    scan_themes_exec(css, 0, out)
}

} // verus!
