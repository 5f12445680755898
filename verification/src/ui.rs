use vstd::prelude::*;
use vstd::string::*;
use crate::text::str_equals;

verus! {

/// How the runner styles its terminal output.
#[derive(Debug, Clone, Copy)]
pub struct Ui {
    pub colors: bool,
    pub spinner: bool,
}

/// The ANSI escape that starts a style with the given parameters.
pub open spec fn ansi_open(code: Seq<char>) -> Seq<char> {
    "\x1b["@ + code + "m"@
}

/// The text, wrapped in the style `code` when colors are on, and unchanged otherwise.
pub open spec fn painted(colors: bool, code: Seq<char>, text: Seq<char>) -> Seq<char> {
    if colors {
        ansi_open(code) + text + "\x1b[0m"@
    } else {
        text
    }
}

/// Whether a terminal type allows styling: any terminal but `dumb`, or an unknown one.
pub open spec fn terminal_is_suitable(term: Option<&str>) -> bool {
    match term {
        Some(t) => t@ != "dumb"@,
        None => true,
    }
}

/// With colors off every style leaves the text unchanged.
pub proof fn lemma_plain_output_is_unstyled(code: Seq<char>, text: Seq<char>)
    ensures
        painted(false, code, text) == text,
{
}

impl Ui {
    /// The styling for the current process. Output goes to both stdout and stderr, so colors are
    /// used only when neither is redirected: both are terminals of a suitable type and
    /// `NO_COLOR` is unset. Redirected output stays plain. The spinner, drawn on stderr, is
    /// shown when stderr is such a terminal.
    pub fn from_environment(
        stdout_is_terminal: bool,
        stderr_is_terminal: bool,
        term: Option<&str>,
        no_color_set: bool,
    ) -> (ui: Ui)
        ensures
            ui.colors == (stdout_is_terminal && stderr_is_terminal && terminal_is_suitable(term)
                && !no_color_set),
            ui.spinner == (stderr_is_terminal && terminal_is_suitable(term)),
            no_color_set || !stdout_is_terminal || !stderr_is_terminal ==> !ui.colors,
            ui.spinner ==> stderr_is_terminal,
    {
        let terminal_is_suitable = match term {
            Some(t) => !str_equals(t, "dumb"),
            None => true,
        };
        Ui {
            colors: stdout_is_terminal && stderr_is_terminal && terminal_is_suitable && !no_color_set,
            spinner: stderr_is_terminal && terminal_is_suitable,
        }
    }

    /// The text in the style `code`, or the plain text when colors are off.
    pub fn paint(self, code: &str, text: &str) -> (styled: String)
        ensures
            styled@ == painted(self.colors, code@, text@),
    {
        if self.colors {
            let mut styled = String::from_str("\x1b[");
            styled.append(code);
            styled.append("m");
            styled.append(text);
            styled.append("\x1b[0m");
            styled
        } else {
            text.to_owned()
        }
    }

    /// Bold text.
    pub fn strong(self, text: &str) -> (styled: String)
        ensures
            styled@ == painted(self.colors, "1"@, text@),
    {
        self.paint("1", text)
    }

    /// Dimmed text.
    pub fn dim(self, text: &str) -> (styled: String)
        ensures
            styled@ == painted(self.colors, "2"@, text@),
    {
        self.paint("2", text)
    }

    /// Bold cyan text.
    pub fn info(self, text: &str) -> (styled: String)
        ensures
            styled@ == painted(self.colors, "1;36"@, text@),
    {
        self.paint("1;36", text)
    }

    /// Bold green text.
    pub fn success(self, text: &str) -> (styled: String)
        ensures
            styled@ == painted(self.colors, "1;32"@, text@),
    {
        self.paint("1;32", text)
    }

    /// Bold yellow text.
    pub fn warning(self, text: &str) -> (styled: String)
        ensures
            styled@ == painted(self.colors, "1;33"@, text@),
    {
        self.paint("1;33", text)
    }

    /// Bold red text.
    pub fn error(self, text: &str) -> (styled: String)
        ensures
            styled@ == painted(self.colors, "1;31"@, text@),
    {
        self.paint("1;31", text)
    }

    /// Bold magenta text.
    pub fn accent(self, text: &str) -> (styled: String)
        ensures
            styled@ == painted(self.colors, "1;35"@, text@),
    {
        self.paint("1;35", text)
    }
}

} // verus!
