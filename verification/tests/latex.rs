use trie_rs::map::TrieBuilder;

use somsed::latex::{
    expected_latex, latex_trie, tokenize_latex, tokenize_latex_with, LatexExpr, SubscriptSymbol,
    Symbol, Token, TokenizerError,
};

fn chars(text: &str) -> Vec<char> {
    text.chars().collect()
}

#[test]
fn tokenize_reads_each_command() {
    assert_eq!(tokenize_latex(&chars("sin")), Ok(Token::Latex(LatexExpr::sin)));
    assert_eq!(tokenize_latex(&chars("log")), Ok(Token::Latex(LatexExpr::log)));
    assert_eq!(tokenize_latex(&chars("ln")), Ok(Token::Latex(LatexExpr::ln)));
}

#[test]
fn tokenize_reads_a_command_before_other_text() {
    assert_eq!(tokenize_latex(&chars("sin(x)+1")), Ok(Token::Latex(LatexExpr::sin)));
    assert_eq!(tokenize_latex(&chars("lnx")), Ok(Token::Latex(LatexExpr::ln)));
    assert_eq!(tokenize_latex(&chars("log_2")), Ok(Token::Latex(LatexExpr::log)));
}

#[test]
fn tokenize_refuses_what_is_no_command() {
    assert_eq!(tokenize_latex(&chars("")), Err(TokenizerError::InvalidLatex));
    assert_eq!(tokenize_latex(&chars("s")), Err(TokenizerError::InvalidLatex));
    assert_eq!(tokenize_latex(&chars("si")), Err(TokenizerError::InvalidLatex));
    assert_eq!(tokenize_latex(&chars("l")), Err(TokenizerError::InvalidLatex));
    assert_eq!(tokenize_latex(&chars("lo")), Err(TokenizerError::InvalidLatex));
    assert_eq!(tokenize_latex(&chars("cos")), Err(TokenizerError::InvalidLatex));
    assert_eq!(tokenize_latex(&chars("xsin")), Err(TokenizerError::InvalidLatex));
    assert_eq!(tokenize_latex(&chars("Sin")), Err(TokenizerError::InvalidLatex));
}

#[test]
fn command_names_are_as_written() {
    assert_eq!(LatexExpr::sin.name(), "sin");
    assert_eq!(LatexExpr::log.name(), "log");
    assert_eq!(LatexExpr::ln.name(), "ln");
}

#[test]
fn symbols_come_from_characters_and_commands() {
    assert_eq!(Symbol::from('x'), Symbol::Char('x'));
    assert_eq!(Symbol::from(LatexExpr::ln), Symbol::Latex(LatexExpr::ln));
    let from_symbol = SubscriptSymbol::from(Symbol::Char('a'));
    assert_eq!(from_symbol, SubscriptSymbol { c: Symbol::Char('a'), subscript: None });
    let from_char = SubscriptSymbol::from('b');
    assert_eq!(from_char, SubscriptSymbol { c: Symbol::Char('b'), subscript: None });
}

#[test]
fn one_trie_serves_many_calls() {
    let trie = latex_trie();
    assert_eq!(tokenize_latex_with(&trie, &chars("ln(2)")), Ok(Token::Latex(LatexExpr::ln)));
    assert_eq!(tokenize_latex_with(&trie, &chars("log")), Ok(Token::Latex(LatexExpr::log)));
    assert_eq!(tokenize_latex_with(&trie, &chars("tan")), Err(TokenizerError::InvalidLatex));
    assert_eq!(trie.exact_match(chars("sin")), Some(&LatexExpr::sin));
    assert_eq!(trie.exact_match(chars("si")), None);
}

#[test]
fn the_expected_list_names_every_command() {
    assert_eq!(expected_latex(), ", sin, log, ln");
}

#[test]
fn the_shortest_key_at_the_start_wins() {
    let mut builder: TrieBuilder<char, LatexExpr> = TrieBuilder::new();
    builder.insert("abc".chars(), LatexExpr::log);
    builder.insert("a".chars(), LatexExpr::sin);
    builder.insert("ab".chars(), LatexExpr::ln);
    builder.insert("b".chars(), LatexExpr::log);
    let trie = builder.build();
    assert_eq!(tokenize_latex_with(&trie, &chars("abcd")), Ok(Token::Latex(LatexExpr::sin)));
    assert_eq!(tokenize_latex_with(&trie, &chars("ba")), Ok(Token::Latex(LatexExpr::log)));
    assert_eq!(tokenize_latex_with(&trie, &chars("c")), Err(TokenizerError::InvalidLatex));
    assert_eq!(tokenize_latex_with(&trie, &chars("")), Err(TokenizerError::InvalidLatex));
}

#[test]
fn a_key_given_twice_keeps_the_later_value() {
    let mut builder: TrieBuilder<char, LatexExpr> = TrieBuilder::new();
    builder.insert("ln".chars(), LatexExpr::sin);
    builder.insert("ln".chars(), LatexExpr::ln);
    let trie = builder.build();
    assert_eq!(tokenize_latex_with(&trie, &chars("ln")), Ok(Token::Latex(LatexExpr::ln)));
}
