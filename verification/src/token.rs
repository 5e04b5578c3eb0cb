use vstd::prelude::*;

verus! {

/// The closed set of token kinds.
///
/// Fixed-lexeme kinds (punctuation and operators) have their spelling
/// determined by the kind alone; `IDENT`, `INTEGER` and the keyword kinds
/// carry their text in the lexeme returned beside the kind; `ILLEGAL` marks a
/// single unrecognized byte; `EOF` is the repeatable end-of-input sentinel.
#[allow(non_camel_case_types)]
#[derive(Clone, Copy, Debug, PartialEq, Eq, Structural)]
pub enum Token {
    ILLEGAL,
    EOF,

    IDENT,
    INTEGER,

    ASSIGN,
    PLUS,
    MINUS,
    BANG,
    ASTERISK,
    SLASH,

    INC,         // ++
    PLUS_ASSIGN, // +=

    LT,
    GT,
    EQ,
    NEQ,
    LEQ,
    GEQ,

    COMMA,
    SEMICOLON,

    LPAREN,
    RPAREN,
    LBRACE,
    RBRACE,

    FN,
    LET,
    RETURN,
    IF,
    ELSE,
    TRUE,
    FALSE,
}

// Keyword spellings, byte by byte: fn = [102, 110], let = [108, 101, 116],
// return = [114, 101, 116, 117, 114, 110], if = [105, 102],
// else = [101, 108, 115, 101], true = [116, 114, 117, 101],
// false = [102, 97, 108, 115, 101].

/// Exact-match lookup of an identifier-shaped lexeme against the fixed
/// keyword table; a miss yields `IDENT`.
pub open spec fn keyword_kind(lex: Seq<u8>) -> Token {
    if lex.len() == 2 && lex[0] == 102 && lex[1] == 110 {
        Token::FN
    } else if lex.len() == 3 && lex[0] == 108 && lex[1] == 101 && lex[2] == 116 {
        Token::LET
    } else if lex.len() == 6 && lex[0] == 114 && lex[1] == 101 && lex[2] == 116
        && lex[3] == 117 && lex[4] == 114 && lex[5] == 110 {
        Token::RETURN
    } else if lex.len() == 2 && lex[0] == 105 && lex[1] == 102 {
        Token::IF
    } else if lex.len() == 4 && lex[0] == 101 && lex[1] == 108 && lex[2] == 115
        && lex[3] == 101 {
        Token::ELSE
    } else if lex.len() == 4 && lex[0] == 116 && lex[1] == 114 && lex[2] == 117
        && lex[3] == 101 {
        Token::TRUE
    } else if lex.len() == 5 && lex[0] == 102 && lex[1] == 97 && lex[2] == 108
        && lex[3] == 115 && lex[4] == 101 {
        Token::FALSE
    } else {
        Token::IDENT
    }
}

/// Whether `lex` spells one of the seven reserved words.
pub open spec fn is_reserved_word(lex: Seq<u8>) -> bool {
    ||| lex == seq![102u8, 110u8]
    ||| lex == seq![108u8, 101u8, 116u8]
    ||| lex == seq![114u8, 101u8, 116u8, 117u8, 114u8, 110u8]
    ||| lex == seq![105u8, 102u8]
    ||| lex == seq![101u8, 108u8, 115u8, 101u8]
    ||| lex == seq![116u8, 114u8, 117u8, 101u8]
    ||| lex == seq![102u8, 97u8, 108u8, 115u8, 101u8]
}

/// The keyword table misses exactly on the lexemes that spell none of the
/// seven reserved words.
pub proof fn lemma_keyword_kind_is_ident(lex: Seq<u8>)
    ensures
        keyword_kind(lex) == Token::IDENT <==> !is_reserved_word(lex),
{
    if lex.len() == 2 && lex[0] == 102 && lex[1] == 110 {
        assert(lex =~= seq![102u8, 110u8]);
    }
    if lex.len() == 3 && lex[0] == 108 && lex[1] == 101 && lex[2] == 116 {
        assert(lex =~= seq![108u8, 101u8, 116u8]);
    }
    if lex.len() == 6 && lex[0] == 114 && lex[1] == 101 && lex[2] == 116
        && lex[3] == 117 && lex[4] == 114 && lex[5] == 110 {
        assert(lex =~= seq![114u8, 101u8, 116u8, 117u8, 114u8, 110u8]);
    }
    if lex.len() == 2 && lex[0] == 105 && lex[1] == 102 {
        assert(lex =~= seq![105u8, 102u8]);
    }
    if lex.len() == 4 && lex[0] == 101 && lex[1] == 108 && lex[2] == 115
        && lex[3] == 101 {
        assert(lex =~= seq![101u8, 108u8, 115u8, 101u8]);
    }
    if lex.len() == 4 && lex[0] == 116 && lex[1] == 114 && lex[2] == 117
        && lex[3] == 101 {
        assert(lex =~= seq![116u8, 114u8, 117u8, 101u8]);
    }
    if lex.len() == 5 && lex[0] == 102 && lex[1] == 97 && lex[2] == 108
        && lex[3] == 115 && lex[4] == 101 {
        assert(lex =~= seq![102u8, 97u8, 108u8, 115u8, 101u8]);
    }
}

/// Resolves an identifier-shaped lexeme to its token kind: one of the seven
/// keyword kinds on an exact match, `IDENT` otherwise.
pub(crate) fn lookup_keyword(lex: &Vec<u8>) -> (t: Token)
    ensures
        t == keyword_kind(lex@),
{
    if lex.len() == 2 && lex[0] == 102 && lex[1] == 110 {
        Token::FN
    } else if lex.len() == 3 && lex[0] == 108 && lex[1] == 101 && lex[2] == 116 {
        Token::LET
    } else if lex.len() == 6 && lex[0] == 114 && lex[1] == 101 && lex[2] == 116
        && lex[3] == 117 && lex[4] == 114 && lex[5] == 110 {
        Token::RETURN
    } else if lex.len() == 2 && lex[0] == 105 && lex[1] == 102 {
        Token::IF
    } else if lex.len() == 4 && lex[0] == 101 && lex[1] == 108 && lex[2] == 115
        && lex[3] == 101 {
        Token::ELSE
    } else if lex.len() == 4 && lex[0] == 116 && lex[1] == 114 && lex[2] == 117
        && lex[3] == 101 {
        Token::TRUE
    } else if lex.len() == 5 && lex[0] == 102 && lex[1] == 97 && lex[2] == 108
        && lex[3] == 115 && lex[4] == 101 {
        Token::FALSE
    } else {
        Token::IDENT
    }
}

} // verus!
