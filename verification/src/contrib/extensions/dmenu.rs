//! Menus with suckless' dmenu tool: its arguments, what it is fed, and what its
//! answer means.
use vstd::prelude::*;
use vstd::string::{StrSliceExecFns, StringExecFns};

use crate::draw::{hex_text, Color};
use crate::wm::key_text::{is_white_space, same_text, split_words, texts, white_space, words};
use crate::{decimal_string, decimal_text};

verus! {

/// The result of attempting to match against user input in a [DMenu]
#[derive(Debug, Clone)]
pub enum MenuMatch {
    /// The selected line along its line number (0 indexed)
    Line(usize, String),
    /// Nothing matched and this was the user's input when they hit Return
    UserInput(String),
    /// The user exited out of matching or had nothing typed
    NoMatch,
}

/// Config for running a [DMenu] selection
#[derive(Debug, Clone, Copy)]
pub struct DMenuConfig {
    /// Should line numbers be displayed to the user?
    pub show_line_numbers: bool,
    /// Should dmenu treat the input as a password and render characters as '*'?
    pub password_input: bool,
    /// Background color
    pub bg_color: Color,
    /// Foreground color for text
    pub fg_color: Color,
    /// Selected line background color
    pub selected_color: Color,
    /// Number of lines to display at a time
    pub n_lines: usize,
}

impl Default for DMenuConfig {
    fn default() -> (r: Self)
        ensures
            !r.show_line_numbers,
            !r.password_input,
            r.bg_color.rgba == 0x282828ff,
            r.fg_color.rgba == 0xebdbb2ff,
            r.selected_color.rgba == 0x458588ff,
            r.n_lines == 10,
    {
        Self {
            show_line_numbers: false,
            password_input: false,
            bg_color: Color { rgba: 0x282828ff },
            fg_color: Color { rgba: 0xebdbb2ff },
            selected_color: Color { rgba: 0x458588ff },
            n_lines: 10,
        }
    }
}

/// The text of a color as dmenu takes it.
pub open spec fn color_text(c: Color) -> Seq<char> {
    "#"@ + hex_text((c.rgba / 256) as nat)
}

/// The argument text of a menu: the lines shown, the colors, the screen, whether the
/// input is a password, and the prompt if there is one.
pub open spec fn flags_text(config: DMenuConfig, prompt: Seq<char>, screen_index: usize) -> Seq<char> {
    let base = "-l "@ + decimal_text(config.n_lines as nat) + " -nb "@ + color_text(config.bg_color) + " -nf "@
        + color_text(config.fg_color) + " -sb "@ + color_text(config.selected_color) + " -m "@ + decimal_text(
        screen_index as nat,
    );
    let with_password = if config.password_input {
        base + " -P"@
    } else {
        base
    };
    if prompt.len() > 0 {
        with_password + " -p "@ + prompt
    } else {
        with_password
    }
}

impl DMenuConfig {
    /// The arguments to run dmenu with: the words of [flags_text].
    pub fn flags(&self, prompt: &str, screen_index: usize) -> (r: Vec<String>)
        ensures
            r@.map_values(|s: String| s@) == words(flags_text(*self, prompt@, screen_index)),
    {
        let mut s = "-l ".to_owned().concat(decimal_string(self.n_lines).as_str());
        s.append(" -nb ");
        s.append(self.bg_color.as_rgb_hex_string().as_str());
        s.append(" -nf ");
        s.append(self.fg_color.as_rgb_hex_string().as_str());
        s.append(" -sb ");
        s.append(self.selected_color.as_rgb_hex_string().as_str());
        s.append(" -m ");
        s.append(decimal_string(screen_index).as_str());
        if self.password_input {
            s.append(" -P");
        }
        if prompt.unicode_len() > 0 {
            s.append(" -p ");
            s.append(prompt);
        }
        assert(s@ =~= flags_text(*self, prompt@, screen_index));
        let ws = split_words(s.as_str());
        let mut out: Vec<String> = Vec::new();
        let mut i: usize = 0;
        while i < ws.len()
            invariant
                i <= ws@.len(),
                out@.len() == i,
                forall|j: int| 0 <= j < i ==> #[trigger] out@[j]@ == ws@[j]@,
            decreases ws@.len() - i,
        {
            out.push(ws[i].to_owned());
            i = i + 1;
        }
        assert(out@.map_values(|s: String| s@) =~= texts(ws@));
        out
    }
}

/// `s` without the white space at its start.
pub open spec fn trim_start(s: Seq<char>) -> Seq<char>
    decreases s.len(),
{
    if s.len() > 0 && is_white_space(s[0]) {
        trim_start(s.drop_first())
    } else {
        s
    }
}

/// `s` without the white space at its end.
pub open spec fn trim_end(s: Seq<char>) -> Seq<char>
    decreases s.len(),
{
    if s.len() > 0 && is_white_space(s.last()) {
        trim_end(s.drop_last())
    } else {
        s
    }
}

/// `s` without the white space at its start and end (what `str::trim` gives).
pub open spec fn trimmed(s: Seq<char>) -> Seq<char> {
    trim_end(trim_start(s))
}

/// `s` without the white space at its start and end.
pub fn trim(s: &str) -> (r: &str)
    ensures
        r@ == trimmed(s@),
{
    let n = s.unicode_len();
    let mut start: usize = 0;
    assert(s@.subrange(0, n as int) =~= s@);
    while start < n && white_space(s.get_char(start))
        invariant
            n == s@.len(),
            start <= n,
            trim_start(s@) == trim_start(s@.subrange(start as int, n as int)),
        decreases n - start,
    {
        assert(s@.subrange(start + 1, n as int) == s@.subrange(start as int, n as int).drop_first());
        start = start + 1;
    }
    let mut end: usize = n;
    proof {
        if start < n {
            assert(s@.subrange(start as int, n as int)[0] == s@[start as int]);
        }
        assert(trim_start(s@.subrange(start as int, n as int)) == s@.subrange(start as int, n as int));
    }
    while end > start && white_space(s.get_char(end - 1))
        invariant
            n == s@.len(),
            start <= end <= n,
            trim_start(s@) == s@.subrange(start as int, n as int),
            trim_end(trim_start(s@)) == trim_end(s@.subrange(start as int, end as int)),
        decreases end - start,
    {
        assert(s@.subrange(start as int, end - 1) == s@.subrange(start as int, end as int).drop_last());
        end = end - 1;
    }
    proof {
        if end > start {
            assert(s@.subrange(start as int, end as int).last() == s@[end - 1]);
        }
        assert(trim_end(s@.subrange(start as int, end as int)) == s@.subrange(start as int, end as int));
    }
    s.substring_char(start, end)
}

/// The text dmenu shows for choice `i`: with line numbers, the number padded to three
/// characters, a space, and the choice.
pub open spec fn choice_line(numbered: bool, i: nat, choice: Seq<char>) -> Seq<char> {
    if numbered {
        let t = decimal_text(i);
        let padded = if t.len() < 3 {
            t + Seq::new((3 - t.len()) as nat, |k: int| ' ')
        } else {
            t
        };
        padded + " "@ + choice
    } else {
        choice
    }
}

/// The lines of `choices`, each followed by a newline but the last.
pub open spec fn menu_text(numbered: bool, choices: Seq<String>, n: int) -> Seq<char>
    decreases n,
{
    if n <= 0 {
        Seq::empty()
    } else if n == 1 {
        choice_line(numbered, 0, choices[0]@)
    } else {
        menu_text(numbered, choices, n - 1) + "\n"@ + choice_line(numbered, (n - 1) as nat, choices[n - 1]@)
    }
}

/// The index of the first choice whose line is `text`, if any.
pub open spec fn first_choice(numbered: bool, choices: Seq<String>, text: Seq<char>, n: int) -> Option<int>
    decreases n,
{
    if n <= 0 {
        None
    } else {
        match first_choice(numbered, choices, text, n - 1) {
            Some(i) => Some(i),
            None => if choice_line(numbered, (n - 1) as nat, choices[n - 1]@) == text {
                Some(n - 1)
            } else {
                None
            },
        }
    }
}

/// A dmenu menu: a prompt, the choices, and how to show them.
#[derive(Debug, Clone)]
pub struct DMenu {
    /// How to run dmenu
    pub config: DMenuConfig,
    /// The prompt to show
    pub prompt: String,
    /// The choices to pick from
    pub choices: Vec<String>,
}

/// The line dmenu shows for choice `i`; see [choice_line].
fn line_for(numbered: bool, i: usize, choice: &String) -> (r: String)
    ensures
        r@ == choice_line(numbered, i as nat, choice@),
{
    if numbered {
        let mut t = decimal_string(i);
        let ghost digits = t@;
        let mut k: usize = t.unicode_len();
        while k < 3
            invariant
                digits == decimal_text(i as nat),
                digits.len() <= 3 ==> k <= 3,
                digits.len() >= 3 ==> k == digits.len(),
                k >= digits.len(),
                t@ == digits + Seq::new((k - digits.len()) as nat, |q: int| ' '),
            decreases 3 - k,
        {
            let ghost before = t@;
            t.append(" ");
            proof {
                reveal_strlit(" ");
                assert(t@ =~= digits + Seq::new((k + 1 - digits.len()) as nat, |q: int| ' '));
            }
            k = k + 1;
        }
        proof {
            if digits.len() >= 3 {
                assert(t@ =~= digits);
            } else {
                assert(k == 3);
            }
        }
        t.append(" ");
        t.append(choice.as_str());
        t
    } else {
        choice.clone()
    }
}

impl DMenu {
    /// Create a new [DMenu] command.
    pub fn new(prompt: String, choices: Vec<String>, config: DMenuConfig) -> (r: Self)
        ensures
            r.prompt == prompt,
            r.choices == choices,
            r.config == config,
    {
        Self { prompt, choices, config }
    }

    /// The text to feed dmenu on its standard input: one line per choice.
    pub fn menu_input(&self) -> (r: String)
        ensures
            r@ == menu_text(self.config.show_line_numbers, self.choices@, self.choices@.len() as int),
    {
        let numbered = self.config.show_line_numbers;
        let mut text = String::new();
        let mut i: usize = 0;
        while i < self.choices.len()
            invariant
                numbered == self.config.show_line_numbers,
                i <= self.choices@.len(),
                text@ == menu_text(numbered, self.choices@, i as int),
            decreases self.choices@.len() - i,
        {
            let line = line_for(numbered, i, &self.choices[i]);
            let ghost before = text@;
            if i > 0 {
                text.append("\n");
            }
            text.append(line.as_str());
            proof {
                if i == 0 {
                    assert(before =~= Seq::<char>::empty());
                    assert(text@ =~= line@);
                }
            }
            i = i + 1;
        }
        text
    }

    /// What dmenu's answer `raw` means: nothing when it is blank, otherwise the first
    /// choice whose line it is, or else what the user typed.
    pub fn match_choice(&self, raw: &str) -> (r: MenuMatch)
        ensures
            ({
                let choice = trimmed(raw@);
                let numbered = self.config.show_line_numbers;
                if choice.len() == 0 {
                    r is NoMatch
                } else {
                    match first_choice(numbered, self.choices@, choice, self.choices@.len() as int) {
                        Some(i) => r matches MenuMatch::Line(j, s) && j == i && s == self.choices@[i],
                        None => r matches MenuMatch::UserInput(s) && s@ == choice,
                    }
                }
            }),
    {
        let choice = trim(raw);
        if choice.unicode_len() == 0 {
            return MenuMatch::NoMatch;
        }
        let numbered = self.config.show_line_numbers;
        let mut i: usize = 0;
        while i < self.choices.len()
            invariant
                numbered == self.config.show_line_numbers,
                i <= self.choices@.len(),
                first_choice(numbered, self.choices@, choice@, i as int) is None,
                choice@ == trimmed(raw@),
                choice@.len() > 0,
            decreases self.choices@.len() - i,
        {
            let line = line_for(numbered, i, &self.choices[i]);
            if same_text(line.as_str(), choice) {
                proof {
                    assert(first_choice(numbered, self.choices@, choice@, i + 1) == Some(i as int));
                    lemma_first_choice_stays(numbered, self.choices@, choice@, i + 1);
                }
                return MenuMatch::Line(i, self.choices[i].clone());
            }
            i = i + 1;
        }
        MenuMatch::UserInput(choice.to_owned())
    }
}

/// Once the first `n` choices hold a match, the first match of all the choices is
/// that one.
proof fn lemma_first_choice_stays(numbered: bool, choices: Seq<String>, text: Seq<char>, n: int)
    requires
        0 <= n <= choices.len(),
        first_choice(numbered, choices, text, n) is Some,
    ensures
        first_choice(numbered, choices, text, choices.len() as int) == first_choice(numbered, choices, text, n),
    decreases choices.len() - n,
{
    if n < choices.len() {
        lemma_first_choice_stays(numbered, choices, text, n + 1);
    }
}

} // verus!
