//! A dynamic tiling window manager library: the pure data structures and
//! decision logic, with contracts checked by Verus.
use vstd::prelude::*;
use vstd::string::StringExecFns;

pub mod builtin;
pub mod client;
pub mod common;
pub mod contrib;
pub mod data_types;
pub mod draw;
pub mod example_helpers;
pub mod pure;
pub mod wm;

verus! {

/// An X window ID.
#[derive(Debug, Clone, Copy, PartialEq, Eq, Hash, PartialOrd, Ord, Structural)]
pub struct Xid(pub u32);

/// Errors raised by the window manager core.
#[derive(Debug)]
pub enum PenroseError {
    /// A free form error message.
    Raw(String),
    /// Client hints could not be parsed from the raw property data.
    InvalidHints(String),
    /// An operation named a window ID that is not a known client.
    UnknownClient(u32),
    /// A selector matched no element.
    NoMatchingElement,
}

/// Errors raised when parsing user input bindings.
#[derive(Debug)]
pub enum Error {
    /// A free form error message.
    Custom(String),
    /// A key binding named a key that is not known.
    UnknownKeyName {
        /// The name of the key.
        name: String,
    },
    /// A key binding named a modifier that is not known.
    UnknownModifier {
        /// The name of the modifier.
        name: String,
    },
    /// A mouse button number that is not known.
    UnknownMouseButton {
        /// The X button number.
        button: u8,
    },
    /// Some key bindings could not be used.
    InvalidKeyBindings {
        /// Each binding that could not be used, and why.
        errors: Vec<crate::wm::key_bindings::KeyBindingError>,
    },
}

/// The character of a decimal digit.
pub open spec fn digit_char(d: nat) -> char {
    ('0' as int + d) as char
}

/// The decimal digits of `n`, most significant first.
pub open spec fn decimal_text(n: nat) -> Seq<char>
    decreases n,
{
    if n < 10 {
        seq![digit_char(n)]
    } else {
        decimal_text(n / 10) + seq![digit_char(n % 10)]
    }
}

/// The text of an error on its own line: a list of binding errors is only named.
pub open spec fn error_summary(e: Error) -> Seq<char> {
    match e {
        Error::Custom(m) => m@,
        Error::UnknownKeyName { name } => "'"@ + name@ + "' is not a known key name"@,
        Error::UnknownModifier { name } => "'"@ + name@ + "' is not a known modifier key"@,
        Error::UnknownMouseButton { button } => decimal_text(button as nat) + " is not a supported mouse button"@,
        Error::InvalidKeyBindings { .. } => "invalid key bindings"@,
    }
}

/// The text of an error, as it is shown to the user: a list of binding errors shows
/// each of them.
pub open spec fn error_text(e: Error) -> Seq<char> {
    match e {
        Error::InvalidKeyBindings { errors } => "invalid key bindings: "@ + binding_errors_text(
            errors@,
            errors@.len() as int,
        ),
        _ => error_summary(e),
    }
}

/// The first `n` reports of `errors`, each as `'<binding>': <error>`, separated by
/// a comma and a space.
pub open spec fn binding_errors_text(errors: Seq<crate::wm::key_bindings::KeyBindingError>, n: int) -> Seq<char>
    decreases n,
{
    if n <= 0 || n > errors.len() {
        Seq::empty()
    } else {
        let last = errors[n - 1];
        let item = "'"@ + last.binding@ + "': "@ + error_summary(last.error);
        if n == 1 {
            item
        } else {
            binding_errors_text(errors, n - 1) + ", "@ + item
        }
    }
}

/// The decimal text of `n`.
pub fn decimal_string(n: usize) -> (r: String)
    ensures
        r@ == decimal_text(n as nat),
    decreases n,
{
    let d = n % 10;
    let digit: &str = match d {
        0 => "0",
        1 => "1",
        2 => "2",
        3 => "3",
        4 => "4",
        5 => "5",
        6 => "6",
        7 => "7",
        8 => "8",
        _ => "9",
    };
    proof {
        reveal_strlit("0");
        reveal_strlit("1");
        reveal_strlit("2");
        reveal_strlit("3");
        reveal_strlit("4");
        reveal_strlit("5");
        reveal_strlit("6");
        reveal_strlit("7");
        reveal_strlit("8");
        reveal_strlit("9");
        assert(digit@ == seq![digit_char(d as nat)]);
    }
    if n < 10 {
        digit.to_owned()
    } else {
        let high = decimal_string(n / 10);
        high.concat(digit)
    }
}

impl Error {
    /// The text of this error on its own: a list of binding errors is only named.
    pub fn summary(&self) -> (r: String)
        ensures
            r@ == error_summary(*self),
    {
        match self {
            Error::Custom(m) => m.clone(),
            Error::UnknownKeyName { name } => "'".to_owned().concat(name.as_str()).concat(
                "' is not a known key name",
            ),
            Error::UnknownModifier { name } => "'".to_owned().concat(name.as_str()).concat(
                "' is not a known modifier key",
            ),
            Error::UnknownMouseButton { button } => decimal_string(*button as usize).concat(
                " is not a supported mouse button",
            ),
            Error::InvalidKeyBindings { .. } => "invalid key bindings".to_owned(),
        }
    }

    /// The text of this error, as it is shown to the user.
    pub fn message(&self) -> (r: String)
        ensures
            r@ == error_text(*self),
    {
        match self {
            Error::InvalidKeyBindings { errors } => {
                let mut text = "invalid key bindings: ".to_owned();
                let ghost head = text@;
                let mut i: usize = 0;
                proof {
                    assert(binding_errors_text(errors@, 0) =~= Seq::<char>::empty());
                }
                while i < errors.len()
                    invariant
                        i <= errors@.len(),
                        text@ == head + binding_errors_text(errors@, i as int),
                    decreases errors@.len() - i,
                {
                    let part = errors[i].error.summary();
                    let ghost before = text@;
                    if i > 0 {
                        text.append(", ");
                    }
                    text.append("'");
                    text.append(errors[i].binding.as_str());
                    text.append("': ");
                    text.append(part.as_str());
                    proof {
                        let item = "'"@ + errors@[i as int].binding@ + "': "@ + error_summary(errors@[i as int].error);
                        if i > 0 {
                            assert(text@ =~= before + ", "@ + item);
                        } else {
                            assert(text@ =~= before + item);
                            assert(binding_errors_text(errors@, 0) =~= Seq::<char>::empty());
                        }
                    }
                    i = i + 1;
                }
                text
            },
            _ => self.summary(),
        }
    }
}

} // verus!
