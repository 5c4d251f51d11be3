//! The two families of platforms whose path conventions the locator knows.

use vstd::prelude::*;

verus! {

/// How a platform writes paths and lists of paths.
#[derive(Clone, Copy, Debug, PartialEq, Eq, Structural)]
pub enum Platform {
    /// `/` between components, `:` between the entries of a list.
    Posix,
    /// `\` between components (`/` is understood too), `;` between entries.
    Windows,
}

impl Platform {
    /// The character between two entries of a list of directories.
    pub open spec fn list_separator_spec(self) -> char {
        match self {
            Platform::Posix => ':',
            Platform::Windows => ';',
        }
    }

    /// The character that this crate writes between two path components.
    pub open spec fn path_separator_spec(self) -> char {
        match self {
            Platform::Posix => '/',
            Platform::Windows => '\\',
        }
    }

    /// Whether the platform reads `c` as the end of a path component.
    pub open spec fn is_path_separator_spec(self, c: char) -> bool {
        c == '/' || (self == Platform::Windows && c == '\\')
    }

    /// The character between two entries of a list of directories.
    #[verifier::when_used_as_spec(list_separator_spec)]
    pub fn list_separator(self) -> (c: char)
        ensures
            c == self.list_separator_spec(),
    {
        match self {
            Platform::Posix => ':',
            Platform::Windows => ';',
        }
    }

    /// The character that this crate writes between two path components.
    #[verifier::when_used_as_spec(path_separator_spec)]
    pub fn path_separator(self) -> (c: char)
        ensures
            c == self.path_separator_spec(),
    {
        match self {
            Platform::Posix => '/',
            Platform::Windows => '\\',
        }
    }

    /// Whether the platform reads `c` as the end of a path component.
    #[verifier::when_used_as_spec(is_path_separator_spec)]
    pub fn is_path_separator(self, c: char) -> (b: bool)
        ensures
            b == self.is_path_separator_spec(c),
    {
        match self {
            Platform::Posix => c == '/',
            Platform::Windows => c == '/' || c == '\\',
        }
    }

    /// The path separator as a string of one character.
    pub fn path_separator_str(self) -> (s: &'static str)
        ensures
            s@ == seq![self.path_separator()],
    {
        match self {
            Platform::Posix => {
                proof {
                    reveal_strlit("/");
                }
                assert("/"@ =~= seq!['/']);
                "/"
            },
            Platform::Windows => {
                proof {
                    reveal_strlit("\\");
                }
                assert("\\"@ =~= seq!['\\']);
                "\\"
            },
        }
    }
}

} // verus!
