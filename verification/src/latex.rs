//! Keywords of the equation language that are written as LaTeX commands, and the
//! symbols built from them.

use crate::trie::{
    builder_build, builder_insert, builder_new, common_prefix_values, prefix_hits, trie_entries,
};
use trie_rs::map::Trie;
use vstd::prelude::*;
use vstd::std_specs::convert::FromSpecImpl;

verus! {

/// A LaTeX command that names a function.
#[allow(non_camel_case_types)]
#[derive(Debug, Clone, Eq, Hash, PartialEq)]
pub enum LatexExpr {
    sin,
    log,
    ln,
}

impl LatexExpr {
    /// The characters of the command, without the backslash.
    pub open spec fn spec_name(self) -> Seq<char> {
        match self {
            LatexExpr::sin => seq!['s', 'i', 'n'],
            LatexExpr::log => seq!['l', 'o', 'g'],
            LatexExpr::ln => seq!['l', 'n'],
        }
    }

    /// The command as it is written, without the backslash.
    pub fn name(&self) -> (name: &'static str)
        ensures
            name@ == self.spec_name(),
    {
        match self {
            LatexExpr::sin => {
                proof {
                    reveal_strlit("sin");
                }
                assert("sin"@ =~= seq!['s', 'i', 'n']);
                "sin"
            },
            LatexExpr::log => {
                proof {
                    reveal_strlit("log");
                }
                assert("log"@ =~= seq!['l', 'o', 'g']);
                "log"
            },
            LatexExpr::ln => {
                proof {
                    reveal_strlit("ln");
                }
                assert("ln"@ =~= seq!['l', 'n']);
                "ln"
            },
        }
    }
}

/// A token of the equation language.
#[derive(Debug, Clone, Eq, Hash, PartialEq)]
pub enum Token {
    /// A LaTeX command that names a function.
    Latex(LatexExpr),
}

/// Why a run of characters is no token.
#[derive(Debug, Clone, Eq, Hash, PartialEq)]
pub enum TokenizerError {
    /// The characters after a backslash start with no known command.
    InvalidLatex,
}

/// A symbol of an equation: one character, or a LaTeX command.
#[derive(Debug, Clone, Eq, Hash, PartialEq)]
pub enum Symbol {
    Char(char),
    Latex(LatexExpr),
}

impl From<char> for Symbol {
    fn from(value: char) -> (symbol: Self) {
        Self::Char(value)
    }
}

impl FromSpecImpl<char> for Symbol {
    open spec fn obeys_from_spec() -> bool {
        true
    }

    open spec fn from_spec(value: char) -> Self {
        Symbol::Char(value)
    }
}

impl From<LatexExpr> for Symbol {
    fn from(value: LatexExpr) -> (symbol: Self) {
        Self::Latex(value)
    }
}

impl FromSpecImpl<LatexExpr> for Symbol {
    open spec fn obeys_from_spec() -> bool {
        true
    }

    open spec fn from_spec(value: LatexExpr) -> Self {
        Symbol::Latex(value)
    }
}

/// A symbol with the subscript that it carries, if any.
#[derive(Debug, Clone, Eq, Hash, PartialEq)]
pub struct SubscriptSymbol {
    pub c: Symbol,
    pub subscript: Option<String>,
}

impl From<Symbol> for SubscriptSymbol {
    fn from(value: Symbol) -> (symbol: Self) {
        Self { c: value, subscript: None }
    }
}

impl FromSpecImpl<Symbol> for SubscriptSymbol {
    open spec fn obeys_from_spec() -> bool {
        true
    }

    open spec fn from_spec(value: Symbol) -> Self {
        SubscriptSymbol { c: value, subscript: None }
    }
}

impl From<char> for SubscriptSymbol {
    fn from(value: char) -> (symbol: Self) {
        Self { c: Symbol::from(value), subscript: None }
    }
}

impl FromSpecImpl<char> for SubscriptSymbol {
    open spec fn obeys_from_spec() -> bool {
        true
    }

    open spec fn from_spec(value: char) -> Self {
        SubscriptSymbol { c: Symbol::Char(value), subscript: None }
    }
}

/// The keyword table: each command's name with the command.
pub open spec fn latex_entries() -> Map<Seq<char>, LatexExpr> {
    Map::empty().insert(LatexExpr::sin.spec_name(), LatexExpr::sin).insert(
        LatexExpr::log.spec_name(),
        LatexExpr::log,
    ).insert(LatexExpr::ln.spec_name(), LatexExpr::ln)
}

/// The command whose name `chars` starts with. No name is the start of another,
/// so at most one command qualifies.
pub open spec fn leading_keyword(chars: Seq<char>) -> Option<LatexExpr> {
    if LatexExpr::sin.spec_name().is_prefix_of(chars) {
        Some(LatexExpr::sin)
    } else if LatexExpr::log.spec_name().is_prefix_of(chars) {
        Some(LatexExpr::log)
    } else if LatexExpr::ln.spec_name().is_prefix_of(chars) {
        Some(LatexExpr::ln)
    } else {
        None
    }
}

/// What `tokenize_latex` returns on `chars`.
pub open spec fn spec_tokenize_latex(chars: Seq<char>) -> Result<Token, TokenizerError> {
    match leading_keyword(chars) {
        Some(command) => Ok(Token::Latex(command)),
        None => Err(TokenizerError::InvalidLatex),
    }
}

/// Builds the trie that holds the keyword table.
pub fn latex_trie() -> (trie: Trie<char, LatexExpr>)
    ensures
        trie_entries(trie) == latex_entries(),
{
    let mut builder = builder_new();
    builder_insert(&mut builder, LatexExpr::sin.name(), LatexExpr::sin);
    builder_insert(&mut builder, LatexExpr::log.name(), LatexExpr::log);
    builder_insert(&mut builder, LatexExpr::ln.name(), LatexExpr::ln);
    builder_build(builder)
}

/// Among the first `n` prefixes of `chars`, only the one that spells a command
/// is a key of the keyword table.
proof fn lemma_keyword_hits(chars: Seq<char>, n: nat)
    requires
        n <= chars.len(),
    ensures
        prefix_hits(latex_entries(), chars, n) == match leading_keyword(chars) {
            Some(command) if command.spec_name().len() <= n => seq![command],
            _ => Seq::<LatexExpr>::empty(),
        },
    decreases n,
{
    if n > 0 {
        lemma_keyword_hits(chars, (n - 1) as nat);
        let prefix = chars.take(n as int);
        let sin = LatexExpr::sin.spec_name();
        let log = LatexExpr::log.spec_name();
        let ln = LatexExpr::ln.spec_name();
        assert(prefix.len() == n);
        assert(prefix == sin <==> n == 3 && sin.is_prefix_of(chars)) by {
            if n == 3 && sin.is_prefix_of(chars) {
                assert(prefix =~= sin);
            }
            if prefix == sin {
                assert(sin =~= chars.subrange(0, 3));
            }
        }
        assert(prefix == log <==> n == 3 && log.is_prefix_of(chars)) by {
            if n == 3 && log.is_prefix_of(chars) {
                assert(prefix =~= log);
            }
            if prefix == log {
                assert(log =~= chars.subrange(0, 3));
            }
        }
        assert(prefix == ln <==> n == 2 && ln.is_prefix_of(chars)) by {
            if n == 2 && ln.is_prefix_of(chars) {
                assert(prefix =~= ln);
            }
            if prefix == ln {
                assert(ln =~= chars.subrange(0, 2));
            }
        }
        assert(sin.is_prefix_of(chars) ==> chars[0] == 's');
        assert(log.is_prefix_of(chars) ==> chars[0] == 'l' && chars[1] == 'o');
        assert(ln.is_prefix_of(chars) ==> chars[0] == 'l' && chars[1] == 'n');
        assert(latex_entries().contains_key(prefix) <==> prefix == sin || prefix == log || prefix
            == ln);
    }
}

/// The token that a search for the keys at the start of a text gives: the value
/// of the shortest key found, or `InvalidLatex` where none was found.
pub open spec fn first_hit(hits: Seq<LatexExpr>) -> Result<Token, TokenizerError> {
    if hits.len() > 0 {
        Ok(Token::Latex(hits[0]))
    } else {
        Err(TokenizerError::InvalidLatex)
    }
}

/// Reads the command at the start of `chars` off a trie of commands.
///
/// The result is the value of the shortest key of `trie` that `chars` starts
/// with; where they start with none, the characters are refused as
/// `InvalidLatex`. With the trie of `latex_trie` this is `tokenize_latex`,
/// without building the trie anew for each call.
pub fn tokenize_latex_with(trie: &Trie<char, LatexExpr>, chars: &[char]) -> (token: Result<
    Token,
    TokenizerError,
>)
    ensures
        token == first_hit(prefix_hits(trie_entries(*trie), chars@, chars@.len())),
{
    let mut hits = common_prefix_values(trie, chars);
    if hits.len() > 0 {
        let latex = hits.remove(0);
        Ok(Token::Latex(latex))
    } else {
        Err(TokenizerError::InvalidLatex)
    }
}

/// Reads the LaTeX command that `chars` starts with.
///
/// `chars` is what follows a backslash. The result is the command whose name
/// the characters start with; where they start with none, the characters are
/// refused as `InvalidLatex`.
pub fn tokenize_latex(chars: &[char]) -> (token: Result<Token, TokenizerError>)
    ensures
        token == spec_tokenize_latex(chars@),
{
    let trie = latex_trie();
    proof {
        lemma_keyword_hits(chars@, chars@.len());
    }
    tokenize_latex_with(&trie, chars)
}

/// The list of commands as an error message names them: each name after a
/// comma and a space.
pub open spec fn spec_expected_latex() -> Seq<char> {
    seq![',', ' '] + LatexExpr::sin.spec_name() + seq![',', ' '] + LatexExpr::log.spec_name()
        + seq![',', ' '] + LatexExpr::ln.spec_name()
}

/// The commands that the tokenizer knows, for the message that follows an
/// `InvalidLatex`.
pub fn expected_latex() -> (list: String)
    ensures
        list@ == spec_expected_latex(),
{
    proof {
        reveal_strlit(", sin, log, ln");
    }
    assert(", sin, log, ln"@ =~= spec_expected_latex());
    ", sin, log, ln".to_owned()
}

} // verus!
