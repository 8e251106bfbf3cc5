//! The themes the application knows: the built-in ones and the user's,
//! which one is active, and what applying, saving and deleting a theme does
//! to the list. Reading and writing theme files and styling the interface
//! are the application's part.
use vstd::prelude::*;
use crate::theme::{Theme, ThemeEntry, spec_css};
use crate::text::{str_equal, push_text};

verus! {

/// The names of the built-in themes, in the order they are listed.
pub open spec fn builtin_names() -> Seq<Seq<char>> {
    seq![
        "monokai"@, "dracula"@, "nord"@, "catppuccin-mocha"@, "gruvbox-dark"@,
        "solarized-dark"@, "ocean"@, "forest"@, "berry"@, "sunset"@,
    ]
}

pub fn builtin_theme_names() -> (names: Vec<&'static str>)
    ensures
        names@.map_values(|n: &'static str| n@) == builtin_names(),
{
    let names = vec![
        "monokai", "dracula", "nord", "catppuccin-mocha", "gruvbox-dark",
        "solarized-dark", "ocean", "forest", "berry", "sunset",
    ];
    assert(names@.map_values(|n: &'static str| n@) =~= builtin_names());
    names
}

/// The resource path of a built-in theme's file.
pub fn builtin_resource_path(name: &str) -> (path: String)
    ensures
        path@ == "/com/adrienplazas/Metronome/themes/"@ + name@ + ".json"@,
{
    let mut path = String::new();
    push_text(&mut path, "/com/adrienplazas/Metronome/themes/");
    push_text(&mut path, name);
    push_text(&mut path, ".json");
    assert(path@ =~= "/com/adrienplazas/Metronome/themes/"@ + name@ + ".json"@);
    path
}

/// The file name of a built-in theme's entry.
pub fn builtin_file_name(name: &str) -> (file_name: String)
    ensures
        file_name@ == name@ + ".json"@,
{
    let mut file_name = String::new();
    push_text(&mut file_name, name);
    push_text(&mut file_name, ".json");
    assert(file_name@ =~= name@ + ".json"@);
    file_name
}

/// How to style the interface: the stylesheet, and whether to force dark.
pub struct ThemeStyle {
    pub css: String,
    pub dark: bool,
}

/// A card of the theme chooser: the default look first, then each theme.
pub struct ThemeCard {
    pub name: String,
    pub accent_color: String,
    pub dark: bool,
    /// User themes can be edited and deleted from their card.
    pub editable: bool,
    pub active: bool,
}

/// The card of theme `i` of the list (card `i + 1` of the chooser).
pub open spec fn card_matches(card: ThemeCard, entry: ThemeEntry, active: Seq<char>) -> bool {
    &&& card.name@ == entry.theme.name@
    &&& card.accent_color@ == entry.theme.colors.accent_bg_color@
    &&& card.dark == entry.theme.dark
    &&& card.editable == !entry.builtin
    &&& card.active == (entry.theme.name@ == active)
}

/// The last theme from `i` down named `active`, as a card index; the
/// default card when none is and the active name is empty; none else.
pub open spec fn active_card(themes: Seq<ThemeEntry>, active: Seq<char>, i: int) -> int
    decreases i,
{
    if i <= 0 {
        if active.len() == 0 { 0 } else { -1 }
    } else if themes[i - 1].theme.name@ == active {
        i
    } else {
        active_card(themes, active, i - 1)
    }
}

pub struct ThemeLibrary {
    pub themes: Vec<ThemeEntry>,
    pub active_theme_name: String,
}

/// The first entry from `from` on named `name` (only user themes when
/// `user_only`).
pub open spec fn first_named(themes: Seq<ThemeEntry>, name: Seq<char>, user_only: bool, from: int) -> Option<int>
    decreases themes.len() - from,
{
    if from < 0 || from >= themes.len() {
        None
    } else if themes[from].theme.name@ == name && !(user_only && themes[from].builtin) {
        Some(from)
    } else {
        first_named(themes, name, user_only, from + 1)
    }
}

proof fn lemma_first_named_range(themes: Seq<ThemeEntry>, name: Seq<char>, user_only: bool, from: int)
    requires
        0 <= from,
    ensures
        first_named(themes, name, user_only, from) matches Some(i) ==> from <= i < themes.len()
            && themes[i].theme.name@ == name && !(user_only && themes[i].builtin),
    decreases themes.len() - from,
{
    if from < themes.len() && !(themes[from].theme.name@ == name && !(user_only && themes[from].builtin)) {
        lemma_first_named_range(themes, name, user_only, from + 1);
    }
}

pub open spec fn not_found_message(name: Seq<char>) -> Seq<char> {
    "Theme '"@ + name + "' not found"@
}

pub open spec fn not_deletable_message(name: Seq<char>) -> Seq<char> {
    "Theme '"@ + name + "' not found or is built-in"@
}

fn quoted_message(name: &str, tail: &str) -> (message: String)
    ensures
        message@ == "Theme '"@ + name@ + tail@,
{
    let mut message = String::new();
    push_text(&mut message, "Theme '");
    push_text(&mut message, name);
    push_text(&mut message, tail);
    assert(message@ =~= "Theme '"@ + name@ + tail@);
    message
}

impl ThemeLibrary {
    pub open spec fn active(&self) -> Seq<char> {
        self.active_theme_name@
    }

    pub fn new() -> (library: ThemeLibrary)
        ensures
            library.themes@.len() == 0,
            library.active() == Seq::<char>::empty(),
    {
        ThemeLibrary { themes: Vec::new(), active_theme_name: String::new() }
    }

    /// The name of the active theme (empty for the default look).
    pub fn active_theme_name(&self) -> (name: &str)
        ensures
            name@ == self.active(),
    {
        self.active_theme_name.as_str()
    }

    /// The chooser's cards: the default look, then each theme, with the
    /// card to select (-1 for none).
    pub fn theme_cards(&self) -> (r: (Vec<ThemeCard>, i32))
        requires
            self.themes@.len() < i32::MAX,
        ensures
            r.0@.len() == self.themes@.len() + 1,
            r.0@[0].name@ == "Default"@,
            r.0@[0].accent_color@ == "#808080"@,
            !r.0@[0].dark,
            !r.0@[0].editable,
            r.0@[0].active == (self.active().len() == 0),
            forall|i: int| 0 <= i < self.themes@.len() ==> card_matches(#[trigger] r.0@[i + 1], self.themes@[i], self.active()),
            r.1 == active_card(self.themes@, self.active(), self.themes@.len() as int),
    {
        let active_empty = self.active_theme_name.as_str().is_empty();
        let mut cards: Vec<ThemeCard> = Vec::new();
        cards.push(ThemeCard {
            name: "Default".to_string(),
            accent_color: "#808080".to_string(),
            dark: false,
            editable: false,
            active: active_empty,
        });
        let mut active_index: i32 = if active_empty { 0 } else { -1 };
        let mut i: usize = 0;
        while i < self.themes.len()
            invariant
                i <= self.themes@.len(),
                self.themes@.len() < i32::MAX,
                cards@.len() == i + 1,
                cards@[0].name@ == "Default"@,
                cards@[0].accent_color@ == "#808080"@,
                !cards@[0].dark,
                !cards@[0].editable,
                cards@[0].active == (self.active().len() == 0),
                forall|j: int| 0 <= j < i ==> card_matches(#[trigger] cards@[j + 1], self.themes@[j], self.active()),
                active_index == active_card(self.themes@, self.active(), i as int),
            decreases self.themes@.len() - i,
        {
            let entry = &self.themes[i];
            let active = str_equal(entry.theme.name.as_str(), self.active_theme_name.as_str());
            if active {
                active_index = (i + 1) as i32;
            }
            cards.push(ThemeCard {
                name: entry.theme.name.clone(),
                accent_color: entry.theme.colors.accent_bg_color.clone(),
                dark: entry.theme.dark,
                editable: !entry.builtin,
                active,
            });
            i += 1;
        }
        (cards, active_index)
    }

    /// The theme a chosen card stands for: the default look (the empty
    /// name) for the first, else the theme of the list.
    pub fn theme_at_card(&self, index: usize) -> (name: Option<String>)
        ensures
            index == 0 ==> (name matches Some(n) && n@.len() == 0),
            0 < index <= self.themes@.len() ==> (name matches Some(n) && n@ == self.themes@[index - 1].theme.name@),
            index > self.themes@.len() ==> name is None,
    {
        if index == 0 {
            Some(String::new())
        } else if index <= self.themes.len() {
            Some(self.themes[index - 1].theme.name.clone())
        } else {
            None
        }
    }

    /// Adds a theme read from a file.
    pub fn add(&mut self, entry: ThemeEntry)
        ensures
            final(self).themes@ == old(self).themes@.push(entry),
            final(self).active() == old(self).active(),
    {
        self.themes.push(entry);
    }

    /// The first theme named `name` (only a user theme when `user_only`).
    pub fn find(&self, name: &str, user_only: bool) -> (index: Option<usize>)
        ensures
            match index {
                Some(i) => first_named(self.themes@, name@, user_only, 0) == Some(i as int)
                    && i < self.themes@.len(),
                None => first_named(self.themes@, name@, user_only, 0) is None,
            },
    {
        proof {
            lemma_first_named_range(self.themes@, name@, user_only, 0);
        }
        let mut i: usize = 0;
        while i < self.themes.len()
            invariant
                i <= self.themes@.len(),
                first_named(self.themes@, name@, user_only, 0) == first_named(self.themes@, name@, user_only, i as int),
            decreases self.themes@.len() - i,
        {
            let entry = &self.themes[i];
            if str_equal(entry.theme.name.as_str(), name) && !(user_only && entry.builtin) {
                return Some(i);
            }
            i += 1;
        }
        None
    }

    /// Makes `name` the active theme: the default look for the empty name
    /// or a name no theme has (which then also clears the active name),
    /// else the theme's stylesheet, forcing dark for a dark theme.
    pub fn apply_theme(&mut self, name: &str) -> (style: ThemeStyle)
        ensures
            final(self).themes@ == old(self).themes@,
            name@.len() == 0 ==> style.css@ == Seq::<char>::empty() && !style.dark && final(self).active() == name@,
            name@.len() > 0 ==> match first_named(old(self).themes@, name@, false, 0) {
                Some(i) => style.css@ == spec_css(old(self).themes@[i].theme.colors)
                    && style.dark == old(self).themes@[i].theme.dark
                    && final(self).active() == name@,
                None => style.css@ == Seq::<char>::empty() && !style.dark && final(self).active() == Seq::<char>::empty(),
            },
    {
        self.active_theme_name = name.to_owned();
        if name.is_empty() {
            return ThemeStyle { css: String::new(), dark: false };
        }
        proof {
            lemma_first_named_range(self.themes@, name@, false, 0);
        }
        match self.find(name, false) {
            Some(i) => {
                let theme = &self.themes[i].theme;
                ThemeStyle { css: theme.to_css(), dark: theme.dark }
            },
            None => {
                self.active_theme_name = String::new();
                ThemeStyle { css: String::new(), dark: false }
            },
        }
    }

    /// Records a user theme saved under `file_name`: it replaces the user
    /// theme of the same name, or is added at the end.
    pub fn record_user_theme(&mut self, theme: Theme, file_name: String)
        ensures
            final(self).active() == old(self).active(),
            match first_named(old(self).themes@, theme.name@, true, 0) {
                Some(i) => final(self).themes@ == old(self).themes@.update(i, ThemeEntry { theme, builtin: old(self).themes@[i].builtin, file_name }),
                None => final(self).themes@ == old(self).themes@.push(ThemeEntry { theme, builtin: false, file_name }),
            },
    {
        proof {
            lemma_first_named_range(self.themes@, theme.name@, true, 0);
        }
        match self.find(theme.name.as_str(), true) {
            Some(i) => {
                let builtin = self.themes[i].builtin;
                self.themes.set(i, ThemeEntry { theme, builtin, file_name });
            },
            None => {
                self.themes.push(ThemeEntry { theme, builtin: false, file_name });
            },
        }
    }

    /// The user theme that deleting `name` removes, or why there is none.
    pub fn user_theme_index(&self, name: &str) -> (r: Result<usize, String>)
        ensures
            match first_named(self.themes@, name@, true, 0) {
                Some(i) => r == Ok::<usize, String>(i as usize),
                None => r is Err && r->Err_0@ == not_deletable_message(name@),
            },
    {
        match self.find(name, true) {
            Some(i) => Ok(i),
            None => Err(quoted_message(name, "' not found or is built-in")),
        }
    }

    /// Removes the theme at `index` (its file is gone); when it was the
    /// active theme `name`, the default look is applied and returned.
    pub fn remove_theme(&mut self, index: usize, name: &str) -> (style: Option<ThemeStyle>)
        requires
            index < old(self).themes@.len(),
        ensures
            final(self).themes@ == old(self).themes@.remove(index as int),
            old(self).active() == name@ ==> (style matches Some(s) && s.css@ == Seq::<char>::empty() && !s.dark
                && final(self).active() == Seq::<char>::empty()),
            old(self).active() != name@ ==> style is None && final(self).active() == old(self).active(),
    {
        self.themes.remove(index);
        if str_equal(self.active_theme_name.as_str(), name) {
            proof {
                reveal_strlit("");
            }
            Some(self.apply_theme(""))
        } else {
            None
        }
    }

    /// The theme to export, or why there is none.
    pub fn theme_to_export(&self, name: &str) -> (r: Result<usize, String>)
        ensures
            match first_named(self.themes@, name@, false, 0) {
                Some(i) => r == Ok::<usize, String>(i as usize),
                None => r is Err && r->Err_0@ == not_found_message(name@),
            },
    {
        match self.find(name, false) {
            Some(i) => Ok(i),
            None => Err(quoted_message(name, "' not found")),
        }
    }
}

/// Saving a user theme and then applying it by name styles the interface
/// with the saved theme, unless an earlier theme of the list has that name.
pub proof fn lemma_saved_user_theme_is_applied(themes: Seq<ThemeEntry>, theme: Theme, file_name: String)
    requires
        first_named(themes, theme.name@, false, 0) is None,
    ensures
        first_named(themes.push(ThemeEntry { theme, builtin: false, file_name }), theme.name@, false, 0) == Some(themes.len() as int),
{
    lemma_first_named_push(themes, ThemeEntry { theme, builtin: false, file_name }, theme.name@, 0);
}

proof fn lemma_first_named_push(themes: Seq<ThemeEntry>, entry: ThemeEntry, name: Seq<char>, from: int)
    requires
        0 <= from <= themes.len(),
        first_named(themes, name, false, from) is None,
        entry.theme.name@ == name,
    ensures
        first_named(themes.push(entry), name, false, from) == Some(themes.len() as int),
    decreases themes.len() - from,
{
    if from < themes.len() {
        assert(themes.push(entry)[from] == themes[from]);
        lemma_first_named_push(themes, entry, name, from + 1);
    }
}

} // verus!
