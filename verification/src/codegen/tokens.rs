//! The placeholder vocabulary: the tokens a template may hold, the text
//! that marks each of them, and the configuration value that replaces it.

use vstd::prelude::*;
use crate::models::config::CliConfigView;

verus! {

/// A placeholder that the engine recognises. The order of the variants is
/// the order in which the engine tries them at a position of a template.
#[derive(Clone, Copy, Debug, PartialEq, Eq, Structural)]
pub enum Token {
    Name,
    CrateName,
    ShortDescription,
    LongDescription,
    Author,
    Copyright,
    License,
    Repository,
    Version,
    SwCliUrl,
}

impl Token {
    /// The text that marks the token in a template.
    pub open spec fn placeholder(self) -> Seq<char> {
        match self {
            Token::Name => "{{ name }}"@,
            Token::CrateName => "{{ crate_name }}"@,
            Token::ShortDescription => "{{ short_description }}"@,
            Token::LongDescription => "{{ long_description }}"@,
            Token::Author => "{{ author }}"@,
            Token::Copyright => "{{ copyright }}"@,
            Token::License => "{{ license }}"@,
            Token::Repository => "{{ repository }}"@,
            Token::Version => "{{ version }}"@,
            Token::SwCliUrl => "{{ sw_cli_url }}"@,
        }
    }

    /// The text that replaces the token: the field of the same name, the
    /// project name as an identifier for `crate_name`, and the label of the
    /// license for `license`.
    pub open spec fn value(self, config: CliConfigView) -> Seq<char> {
        match self {
            Token::Name => config.name,
            Token::CrateName => config.crate_name(),
            Token::ShortDescription => config.short_description,
            Token::LongDescription => config.long_description,
            Token::Author => config.author,
            Token::Copyright => config.copyright,
            Token::License => config.license.label(),
            Token::Repository => config.repository,
            Token::Version => config.version,
            Token::SwCliUrl => config.sw_cli_url,
        }
    }

    /// The place of the token in the order of the tokens, counted from
    /// zero.
    pub open spec fn index(self) -> int {
        match self {
            Token::Name => 0,
            Token::CrateName => 1,
            Token::ShortDescription => 2,
            Token::LongDescription => 3,
            Token::Author => 4,
            Token::Copyright => 5,
            Token::License => 6,
            Token::Repository => 7,
            Token::Version => 8,
            Token::SwCliUrl => 9,
        }
    }

    /// The token at a place in the order of the tokens.
    pub open spec fn at(index: int) -> Token {
        if index <= 0 {
            Token::Name
        } else if index == 1 {
            Token::CrateName
        } else if index == 2 {
            Token::ShortDescription
        } else if index == 3 {
            Token::LongDescription
        } else if index == 4 {
            Token::Author
        } else if index == 5 {
            Token::Copyright
        } else if index == 6 {
            Token::License
        } else if index == 7 {
            Token::Repository
        } else if index == 8 {
            Token::Version
        } else {
            Token::SwCliUrl
        }
    }

    /// The text that marks the token in a template.
    pub fn placeholder_str(self) -> (mark: &'static str)
        ensures
            mark@ == self.placeholder(),
    {
        match self {
            Token::Name => "{{ name }}",
            Token::CrateName => "{{ crate_name }}",
            Token::ShortDescription => "{{ short_description }}",
            Token::LongDescription => "{{ long_description }}",
            Token::Author => "{{ author }}",
            Token::Copyright => "{{ copyright }}",
            Token::License => "{{ license }}",
            Token::Repository => "{{ repository }}",
            Token::Version => "{{ version }}",
            Token::SwCliUrl => "{{ sw_cli_url }}",
        }
    }
}

/// Whether `c` is one of the two brace characters.
pub open spec fn is_brace(c: char) -> bool {
    c == '{' || c == '}'
}

/// The shape that all placeholders share: two opening braces and a space
/// in front, two closing braces behind, and no brace in between.
pub open spec fn placeholder_shaped(mark: Seq<char>) -> bool {
    &&& mark.len() >= 5
    &&& mark[0] == '{'
    &&& mark[1] == '{'
    &&& mark[2] == ' '
    &&& mark[mark.len() - 2] == '}'
    &&& mark[mark.len() - 1] == '}'
    &&& forall|k: int| 2 <= k < mark.len() - 2 ==> !is_brace(#[trigger] mark[k])
}

/// Every placeholder has the shape of [`placeholder_shaped`].
pub proof fn lemma_placeholder_shaped(token: Token)
    ensures
        placeholder_shaped(token.placeholder()),
{
    match token {
        Token::Name => {
            reveal_strlit("{{ name }}");
            assert("{{ name }}"@ =~= seq!['{', '{', ' ', 'n', 'a', 'm', 'e', ' ', '}', '}']);
        },
        Token::CrateName => {
            reveal_strlit("{{ crate_name }}");
            assert("{{ crate_name }}"@ =~= seq![
                '{', '{', ' ', 'c', 'r', 'a', 't', 'e', '_', 'n', 'a', 'm', 'e', ' ', '}', '}',
            ]);
        },
        Token::ShortDescription => {
            reveal_strlit("{{ short_description }}");
            assert("{{ short_description }}"@ =~= seq![
                '{', '{', ' ', 's', 'h', 'o', 'r', 't', '_', 'd', 'e', 's', 'c', 'r', 'i', 'p', 't',
                'i', 'o', 'n', ' ', '}', '}',
            ]);
        },
        Token::LongDescription => {
            reveal_strlit("{{ long_description }}");
            assert("{{ long_description }}"@ =~= seq![
                '{', '{', ' ', 'l', 'o', 'n', 'g', '_', 'd', 'e', 's', 'c', 'r', 'i', 'p', 't', 'i',
                'o', 'n', ' ', '}', '}',
            ]);
        },
        Token::Author => {
            reveal_strlit("{{ author }}");
            assert("{{ author }}"@ =~= seq![
                '{', '{', ' ', 'a', 'u', 't', 'h', 'o', 'r', ' ', '}', '}',
            ]);
        },
        Token::Copyright => {
            reveal_strlit("{{ copyright }}");
            assert("{{ copyright }}"@ =~= seq![
                '{', '{', ' ', 'c', 'o', 'p', 'y', 'r', 'i', 'g', 'h', 't', ' ', '}', '}',
            ]);
        },
        Token::License => {
            reveal_strlit("{{ license }}");
            assert("{{ license }}"@ =~= seq![
                '{', '{', ' ', 'l', 'i', 'c', 'e', 'n', 's', 'e', ' ', '}', '}',
            ]);
        },
        Token::Repository => {
            reveal_strlit("{{ repository }}");
            assert("{{ repository }}"@ =~= seq![
                '{', '{', ' ', 'r', 'e', 'p', 'o', 's', 'i', 't', 'o', 'r', 'y', ' ', '}', '}',
            ]);
        },
        Token::Version => {
            reveal_strlit("{{ version }}");
            assert("{{ version }}"@ =~= seq![
                '{', '{', ' ', 'v', 'e', 'r', 's', 'i', 'o', 'n', ' ', '}', '}',
            ]);
        },
        Token::SwCliUrl => {
            reveal_strlit("{{ sw_cli_url }}");
            assert("{{ sw_cli_url }}"@ =~= seq![
                '{', '{', ' ', 's', 'w', '_', 'c', 'l', 'i', '_', 'u', 'r', 'l', ' ', '}', '}',
            ]);
        },
    }
}

/// Two different tokens are marked by different texts.
pub proof fn lemma_placeholders_differ(a: Token, b: Token)
    requires
        a != b,
    ensures
        a.placeholder() != b.placeholder(),
{
    lemma_placeholder_signature(a);
    lemma_placeholder_signature(b);
}

/// The length and the first letter of each placeholder: enough to tell
/// any two of them apart.
proof fn lemma_placeholder_signature(token: Token)
    ensures
        token.placeholder().len() == match token {
            Token::Name => 10int,
            Token::CrateName => 16,
            Token::ShortDescription => 23,
            Token::LongDescription => 22,
            Token::Author => 12,
            Token::Copyright => 15,
            Token::License => 13,
            Token::Repository => 16,
            Token::Version => 13,
            Token::SwCliUrl => 16,
        },
        token.placeholder()[3] == match token {
            Token::Name => 'n',
            Token::CrateName => 'c',
            Token::ShortDescription => 's',
            Token::LongDescription => 'l',
            Token::Author => 'a',
            Token::Copyright => 'c',
            Token::License => 'l',
            Token::Repository => 'r',
            Token::Version => 'v',
            Token::SwCliUrl => 's',
        },
{
    reveal_strlit("{{ name }}");
    reveal_strlit("{{ crate_name }}");
    reveal_strlit("{{ short_description }}");
    reveal_strlit("{{ long_description }}");
    reveal_strlit("{{ author }}");
    reveal_strlit("{{ copyright }}");
    reveal_strlit("{{ license }}");
    reveal_strlit("{{ repository }}");
    reveal_strlit("{{ version }}");
    reveal_strlit("{{ sw_cli_url }}");
}

} // verus!
