//! The parser: from the tokens of a program text to its functions and their
//! instructions, with every name still unresolved.
use vstd::prelude::*;
use std::collections::VecDeque;
use crate::instr::ArithOp;
use crate::instr::Func;
use crate::instr::FuncView;
use crate::instr::Instr;
use crate::instr::InstrView;
use crate::instr::Operand;
use crate::instr::OperandView;
use crate::instr::Program;
use crate::instr::ProgramView;
use crate::instr::RelOp;
use crate::instr::body_view;
use crate::instr::funcs_view;
use crate::lexer::Lexer;
use crate::lexer::LexerView;
use crate::lexer::SyntaxError;
use crate::lexer::Token;
use crate::lexer::TokenView;
use crate::lexer::scan;

verus! {

/// Where a parse stands: the lexer, and what went wrong first, if anything
/// did. Once something went wrong nothing more is read.
pub struct ParseState {
    pub lexer: LexerView,
    pub error: Option<SyntaxError>,
}

/// The state of a parse that starts at `lexer`.
pub open spec fn start(lexer: LexerView) -> ParseState {
    ParseState { lexer, error: None }
}

/// `s` after `error` was met.
pub open spec fn fail(s: ParseState, error: SyntaxError) -> ParseState {
    if s.error is Some {
        s
    } else {
        ParseState { error: Some(error), ..s }
    }
}

/// Takes the token that is next.
pub open spec fn advance(s: ParseState) -> (ParseState, TokenView) {
    if s.error is Some {
        (s, TokenView::TokEOF)
    } else {
        match scan(s.lexer.rest).token {
            Ok(token) => (
                ParseState {
                    lexer: LexerView { curr: token, rest: scan(s.lexer.rest).rest },
                    error: None,
                },
                s.lexer.curr,
            ),
            Err(error) => (
                ParseState {
                    lexer: LexerView { curr: s.lexer.curr, rest: scan(s.lexer.rest).rest },
                    error: Some(error),
                },
                TokenView::TokEOF,
            ),
        }
    }
}

/// A name: one token, which must be a name.
pub open spec fn spec_name(s: ParseState) -> (ParseState, Seq<char>) {
    let (s1, token) = advance(s);
    match token {
        TokenView::TokIden(name) => (s1, name),
        _ => (fail(s1, SyntaxError::BadToken), Seq::empty()),
    }
}

/// An integer: a number, after a minus sign or not. Its negative must fit a
/// cell where the sign is there.
pub open spec fn spec_int(s: ParseState) -> (ParseState, i64) {
    let negative = s.error is None && s.lexer.curr is TokSub;
    let s1 = if negative {
        advance(s).0
    } else {
        s
    };
    let (s2, token) = advance(s1);
    match token {
        TokenView::TokInt(i) => if !negative {
            (s2, i)
        } else if i > i64::MIN {
            (s2, (-i) as i64)
        } else {
            (fail(s2, SyntaxError::BadNumber), 0)
        },
        _ => (fail(s2, SyntaxError::BadToken), 0),
    }
}

/// An operand: an integer after `#`, or the name of a register.
pub open spec fn spec_operand(s: ParseState) -> (ParseState, OperandView) {
    let (s1, token) = advance(s);
    match token {
        TokenView::TokSharp => {
            let (s2, i) = spec_int(s1);
            (s2, OperandView::Imm(i))
        },
        TokenView::TokIden(name) => (s1, OperandView::Reg { name, id: 0 }),
        _ => (fail(s1, SyntaxError::BadToken), OperandView::Imm(0)),
    }
}

/// A relational operator.
pub open spec fn spec_rel_op(s: ParseState) -> (ParseState, RelOp) {
    let (s1, token) = advance(s);
    match token {
        TokenView::TokLT => (s1, RelOp::LT),
        TokenView::TokLE => (s1, RelOp::LE),
        TokenView::TokGT => (s1, RelOp::GT),
        TokenView::TokGE => (s1, RelOp::GE),
        TokenView::TokEQ => (s1, RelOp::EQ),
        TokenView::TokNE => (s1, RelOp::NE),
        _ => (fail(s1, SyntaxError::BadToken), RelOp::LT),
    }
}

/// An arithmetic operator.
pub open spec fn spec_arith_op(s: ParseState) -> (ParseState, ArithOp) {
    let (s1, token) = advance(s);
    match token {
        TokenView::TokAdd => (s1, ArithOp::Add),
        TokenView::TokSub => (s1, ArithOp::Sub),
        TokenView::TokStar => (s1, ArithOp::Mul),
        TokenView::TokDiv => (s1, ArithOp::Div),
        _ => (fail(s1, SyntaxError::BadToken), ArithOp::Add),
    }
}

/// What follows the destination `x` of an instruction and the token after it:
/// `&y`, `*y`, `CALL name`, `y op z` or `y`.
pub open spec fn spec_source(s: ParseState, x: OperandView) -> (ParseState, InstrView) {
    match s.lexer.curr {
        TokenView::TokAmp => {
            let (s1, y) = spec_operand(advance(s).0);
            (s1, InstrView::Deref(x, y))
        },
        TokenView::TokStar => {
            let (s1, y) = spec_operand(advance(s).0);
            (s1, InstrView::Load(x, y))
        },
        TokenView::TokCall => {
            let (s1, name) = spec_name(advance(s).0);
            (s1, InstrView::Call { x, name, id: 0 })
        },
        TokenView::TokIden(_) | TokenView::TokSharp => {
            let (s1, y) = spec_operand(s);
            if s1.error is None && (s1.lexer.curr is TokAdd || s1.lexer.curr is TokSub
                || s1.lexer.curr is TokStar || s1.lexer.curr is TokDiv) {
                let (s2, op) = spec_arith_op(s1);
                let (s3, z) = spec_operand(s2);
                (s3, InstrView::Arith(x, y, op, z))
            } else {
                (s1, InstrView::Assign(x, y))
            }
        },
        _ => (fail(s, SyntaxError::BadToken), InstrView::Label(Seq::empty())),
    }
}

/// An instruction that starts with a keyword or `*`.
pub open spec fn spec_keyword_instr(s: ParseState) -> (ParseState, InstrView) {
    match s.lexer.curr {
        TokenView::TokLabel => {
            let (s1, name) = spec_name(advance(s).0);
            (advance(s1).0, InstrView::Label(name))
        },
        TokenView::TokStar => {
            let (s1, x) = spec_operand(advance(s).0);
            let (s2, y) = spec_operand(advance(s1).0);
            (s2, InstrView::Store(x, y))
        },
        TokenView::TokGoto => {
            let (s1, name) = spec_name(advance(s).0);
            (s1, InstrView::Goto { name, id: 0 })
        },
        TokenView::TokIf => {
            let (s1, x) = spec_operand(advance(s).0);
            let (s2, op) = spec_rel_op(s1);
            let (s3, y) = spec_operand(s2);
            let (s4, name) = spec_name(advance(s3).0);
            (s4, InstrView::Cond { x, op, y, name, id: 0 })
        },
        TokenView::TokReturn => {
            let (s1, x) = spec_operand(advance(s).0);
            (s1, InstrView::Return(x))
        },
        TokenView::TokDec => {
            let (s1, x) = spec_operand(advance(s).0);
            let (s2, size) = spec_int(s1);
            (s2, InstrView::Dec(x, size))
        },
        TokenView::TokArg => {
            let (s1, x) = spec_operand(advance(s).0);
            (s1, InstrView::Arg(x))
        },
        TokenView::TokParam => {
            let (s1, x) = spec_operand(advance(s).0);
            (s1, InstrView::Param(x))
        },
        TokenView::TokRead => {
            let (s1, x) = spec_operand(advance(s).0);
            (s1, InstrView::Read(x))
        },
        TokenView::TokWrite => {
            let (s1, x) = spec_operand(advance(s).0);
            (s1, InstrView::Write(x))
        },
        _ => (fail(s, SyntaxError::BadToken), InstrView::Label(Seq::empty())),
    }
}

/// One instruction. An instruction that starts with a name is that name, one
/// token more, which stands for `:=`, and a source; the token after a label's
/// name, after the address of a store and after the test of a conditional jump
/// is taken without a look at it.
pub open spec fn spec_instr(s: ParseState) -> (ParseState, InstrView) {
    if s.error is Some {
        (s, InstrView::Label(Seq::empty()))
    } else if s.lexer.curr is TokIden {
        let (s1, x) = spec_operand(s);
        let s2 = advance(s1).0;
        if s2.error is Some {
            (s2, InstrView::Label(Seq::empty()))
        } else {
            spec_source(s2, x)
        }
    } else {
        spec_keyword_instr(s)
    }
}

/// Whether an instruction can start with `token`.
pub open spec fn starts_instr(token: TokenView) -> bool {
    token is TokIf || token is TokLabel || token is TokIden || token is TokStar || token
        is TokGoto || token is TokReturn || token is TokWrite || token is TokRead || token
        is TokParam || token is TokDec || token is TokArg
}

/// The instructions of one function: as many as follow one another, up to the
/// next `FUNCTION` or the end of the text.
pub open spec fn spec_body(s: ParseState) -> (ParseState, Seq<InstrView>)
    decreases s.lexer.weight(),
{
    if s.error is Some {
        (s, Seq::empty())
    } else if starts_instr(s.lexer.curr) {
        let (s1, instr) = spec_instr(s);
        if s1.error is None && s1.lexer.weight() < s.lexer.weight() {
            let (s2, rest) = spec_body(s1);
            (s2, seq![instr] + rest)
        } else {
            (s1, Seq::empty())
        }
    } else if s.lexer.curr is TokFunc || s.lexer.curr is TokEOF {
        (s, Seq::empty())
    } else {
        (fail(s, SyntaxError::BadToken), Seq::empty())
    }
}

/// One function: `FUNCTION`, its name, one token more, which stands for `:`,
/// and its instructions.
pub open spec fn spec_func(s: ParseState) -> (ParseState, FuncView) {
    let (s1, name) = spec_name(advance(s).0);
    let (s2, body) = spec_body(advance(s1).0);
    (s2, FuncView { name, body, nreg: 0, id: 0 })
}

/// The functions of a program, in the order of the text, up to its end.
pub open spec fn spec_funcs(s: ParseState) -> (ParseState, Seq<FuncView>)
    decreases s.lexer.weight(),
{
    if s.error is Some {
        (s, Seq::empty())
    } else if s.lexer.curr is TokFunc {
        let (s1, func) = spec_func(s);
        if s1.error is None && s1.lexer.weight() < s.lexer.weight() {
            let (s2, rest) = spec_funcs(s1);
            (s2, seq![func] + rest)
        } else {
            (s1, Seq::empty())
        }
    } else if s.lexer.curr is TokEOF {
        (s, Seq::empty())
    } else {
        (fail(s, SyntaxError::BadToken), Seq::empty())
    }
}

/// What went wrong in `result`, if anything did.
pub open spec fn error_of<T>(result: Result<T, SyntaxError>) -> Option<SyntaxError> {
    match result {
        Ok(_) => None,
        Err(error) => Some(error),
    }
}

/// Whether a parse that left the lexer as `lexer` and failed with `error`, if
/// it failed, ended in state `s`.
pub open spec fn ends_in(s: ParseState, lexer: LexerView, error: Option<SyntaxError>) -> bool {
    lexer == s.lexer && error == s.error
}

/// The parser of a program text.
#[derive(Debug)]
pub struct Parser {
    lexer: Lexer,
}

impl View for Parser {
    type V = LexerView;

    closed spec fn view(&self) -> LexerView {
        self.lexer@
    }
}

impl Parser {
    /// Whether the parser's lexer reads from memory. Every parser that `from`
    /// makes does, and goes on to.
    pub closed spec fn wf(&self) -> bool {
        self.lexer.wf()
    }

    /// The parser of the text `input`, with the first token of the text read.
    pub fn from(input: &str) -> (made: Result<Parser, SyntaxError>)
        ensures
            match scan(input@).token {
                Ok(token) => made is Ok && made->Ok_0.wf() && made->Ok_0@ == (LexerView {
                    curr: token,
                    rest: scan(input@).rest,
                }),
                Err(error) => made is Err && made->Err_0 == error,
            },
    {
        match Lexer::from(input.to_owned()) {
            Ok(lexer) => Ok(Parser { lexer }),
            Err(error) => Err(error),
        }
    }

    /// Takes the token that is next.
    fn take(&mut self) -> (token: Result<Token, SyntaxError>)
        requires
            old(self).wf(),
        ensures
            final(self).wf(),
            ends_in(advance(start(old(self)@)).0, final(self)@, error_of(token)),
            token is Ok ==> token->Ok_0@ == advance(start(old(self)@)).1,
            token is Ok ==> final(self)@.weight() <= old(self)@.rest.len(),
    {
        self.lexer.consume()
    }

    /// A name.
    pub fn parse_name(&mut self) -> (name: Result<String, SyntaxError>)
        requires
            old(self).wf(),
        ensures
            final(self).wf(),
            ends_in(spec_name(start(old(self)@)).0, final(self)@, error_of(name)),
            name is Ok ==> name->Ok_0@ == spec_name(start(old(self)@)).1,
            name is Ok ==> final(self)@.weight() < old(self)@.weight(),
    {
        match self.take() {
            Ok(Token::TokIden(name)) => Ok(name),
            Ok(_) => Err(SyntaxError::BadToken),
            Err(error) => Err(error),
        }
    }

    /// An integer.
    pub fn parse_int(&mut self) -> (int_: Result<i64, SyntaxError>)
        requires
            old(self).wf(),
        ensures
            final(self).wf(),
            ends_in(spec_int(start(old(self)@)).0, final(self)@, error_of(int_)),
            int_ is Ok ==> int_->Ok_0 == spec_int(start(old(self)@)).1,
            int_ is Ok ==> final(self)@.weight() < old(self)@.weight(),
    {
        let mut negative = false;
        match self.lexer.peek() {
            Token::TokSub => {
                match self.take() {
                    Ok(_) => {},
                    Err(error) => {
                        return Err(error);
                    },
                }
                negative = true;
            },
            _ => {},
        }
        match self.take() {
            Ok(Token::TokInt(i)) => if !negative {
                Ok(i)
            } else if i > i64::MIN {
                Ok(-i)
            } else {
                Err(SyntaxError::BadNumber)
            },
            Ok(_) => Err(SyntaxError::BadToken),
            Err(error) => Err(error),
        }
    }

    /// An operand.
    pub fn parse_operand(&mut self) -> (operand: Result<Operand, SyntaxError>)
        requires
            old(self).wf(),
        ensures
            final(self).wf(),
            ends_in(spec_operand(start(old(self)@)).0, final(self)@, error_of(operand)),
            operand is Ok ==> operand->Ok_0@ == spec_operand(start(old(self)@)).1,
            operand is Ok ==> final(self)@.weight() < old(self)@.weight(),
    {
        match self.take() {
            Ok(Token::TokSharp) => match self.parse_int() {
                Ok(i) => Ok(Operand::Imm(i)),
                Err(error) => Err(error),
            },
            Ok(Token::TokIden(name)) => Ok(Operand::Reg { name, id: 0 }),
            Ok(_) => Err(SyntaxError::BadToken),
            Err(error) => Err(error),
        }
    }

    /// A relational operator.
    pub fn parse_rel_op(&mut self) -> (op: Result<RelOp, SyntaxError>)
        requires
            old(self).wf(),
        ensures
            final(self).wf(),
            ends_in(spec_rel_op(start(old(self)@)).0, final(self)@, error_of(op)),
            op is Ok ==> op->Ok_0 == spec_rel_op(start(old(self)@)).1,
            op is Ok ==> final(self)@.weight() < old(self)@.weight(),
    {
        match self.take() {
            Ok(Token::TokLT) => Ok(RelOp::LT),
            Ok(Token::TokLE) => Ok(RelOp::LE),
            Ok(Token::TokGT) => Ok(RelOp::GT),
            Ok(Token::TokGE) => Ok(RelOp::GE),
            Ok(Token::TokEQ) => Ok(RelOp::EQ),
            Ok(Token::TokNE) => Ok(RelOp::NE),
            Ok(_) => Err(SyntaxError::BadToken),
            Err(error) => Err(error),
        }
    }

    /// An arithmetic operator.
    pub fn parse_arith_op(&mut self) -> (op: Result<ArithOp, SyntaxError>)
        requires
            old(self).wf(),
        ensures
            final(self).wf(),
            ends_in(spec_arith_op(start(old(self)@)).0, final(self)@, error_of(op)),
            op is Ok ==> op->Ok_0 == spec_arith_op(start(old(self)@)).1,
            op is Ok ==> final(self)@.weight() < old(self)@.weight(),
    {
        match self.take() {
            Ok(Token::TokAdd) => Ok(ArithOp::Add),
            Ok(Token::TokSub) => Ok(ArithOp::Sub),
            Ok(Token::TokStar) => Ok(ArithOp::Mul),
            Ok(Token::TokDiv) => Ok(ArithOp::Div),
            Ok(_) => Err(SyntaxError::BadToken),
            Err(error) => Err(error),
        }
    }
}

impl Parser {
    /// What follows the destination `x` of an instruction and the token after
    /// it.
    fn parse_source(&mut self, x: Operand) -> (instr: Result<Instr, SyntaxError>)
        requires
            old(self).wf(),
        ensures
            final(self).wf(),
            ends_in(spec_source(start(old(self)@), x@).0, final(self)@, error_of(instr)),
            instr is Ok ==> instr->Ok_0@ == spec_source(start(old(self)@), x@).1,
            instr is Ok ==> final(self)@.weight() <= old(self)@.weight(),
    {
        match self.lexer.peek() {
            Token::TokAmp => {
                match self.take() {
                    Ok(_) => {},
                    Err(error) => {
                        return Err(error);
                    },
                }
                match self.parse_operand() {
                    Ok(y) => Ok(Instr::Deref(x, y)),
                    Err(error) => Err(error),
                }
            },
            Token::TokStar => {
                match self.take() {
                    Ok(_) => {},
                    Err(error) => {
                        return Err(error);
                    },
                }
                match self.parse_operand() {
                    Ok(y) => Ok(Instr::Load(x, y)),
                    Err(error) => Err(error),
                }
            },
            Token::TokCall => {
                match self.take() {
                    Ok(_) => {},
                    Err(error) => {
                        return Err(error);
                    },
                }
                match self.parse_name() {
                    Ok(name) => Ok(Instr::Call { x, name, id: 0 }),
                    Err(error) => Err(error),
                }
            },
            Token::TokIden(_) | Token::TokSharp => {
                let y = match self.parse_operand() {
                    Ok(y) => y,
                    Err(error) => {
                        return Err(error);
                    },
                };
                match self.lexer.peek() {
                    Token::TokAdd | Token::TokSub | Token::TokStar | Token::TokDiv => {
                        let op = match self.parse_arith_op() {
                            Ok(op) => op,
                            Err(error) => {
                                return Err(error);
                            },
                        };
                        match self.parse_operand() {
                            Ok(z) => Ok(Instr::Arith(x, y, op, z)),
                            Err(error) => Err(error),
                        }
                    },
                    _ => Ok(Instr::Assign(x, y)),
                }
            },
            _ => Err(SyntaxError::BadToken),
        }
    }

    /// An instruction that starts with `LABEL`, `*`, `GOTO` or `IF`.
    fn parse_jump(&mut self) -> (instr: Result<Instr, SyntaxError>)
        requires
            old(self).wf(),
            old(self)@.curr is TokLabel || old(self)@.curr is TokStar || old(self)@.curr
                is TokGoto || old(self)@.curr is TokIf,
        ensures
            final(self).wf(),
            ends_in(spec_keyword_instr(start(old(self)@)).0, final(self)@, error_of(instr)),
            instr is Ok ==> instr->Ok_0@ == spec_keyword_instr(start(old(self)@)).1,
            instr is Ok ==> final(self)@.weight() < old(self)@.weight(),
    {
        let first = match self.take() {
            Ok(token) => token,
            Err(error) => {
                return Err(error);
            },
        };
        match first {
            Token::TokLabel => {
                let name = match self.parse_name() {
                    Ok(name) => name,
                    Err(error) => {
                        return Err(error);
                    },
                };
                match self.take() {
                    Ok(_) => Ok(Instr::Label(name)),
                    Err(error) => Err(error),
                }
            },
            Token::TokStar => {
                let lhs = match self.parse_operand() {
                    Ok(lhs) => lhs,
                    Err(error) => {
                        return Err(error);
                    },
                };
                match self.take() {
                    Ok(_) => {},
                    Err(error) => {
                        return Err(error);
                    },
                }
                match self.parse_operand() {
                    Ok(rhs) => Ok(Instr::Store(lhs, rhs)),
                    Err(error) => Err(error),
                }
            },
            Token::TokGoto => match self.parse_name() {
                Ok(name) => Ok(Instr::Goto { name, id: 0 }),
                Err(error) => Err(error),
            },
            _ => {
                let x = match self.parse_operand() {
                    Ok(x) => x,
                    Err(error) => {
                        return Err(error);
                    },
                };
                let op = match self.parse_rel_op() {
                    Ok(op) => op,
                    Err(error) => {
                        return Err(error);
                    },
                };
                let y = match self.parse_operand() {
                    Ok(y) => y,
                    Err(error) => {
                        return Err(error);
                    },
                };
                match self.take() {
                    Ok(_) => {},
                    Err(error) => {
                        return Err(error);
                    },
                }
                match self.parse_name() {
                    Ok(name) => Ok(Instr::Cond { x, op, y, name, id: 0 }),
                    Err(error) => Err(error),
                }
            },
        }
    }

    /// An instruction that starts with a keyword other than `LABEL`, `GOTO`
    /// and `IF`.
    fn parse_plain(&mut self) -> (instr: Result<Instr, SyntaxError>)
        requires
            old(self).wf(),
            old(self)@.curr is TokReturn || old(self)@.curr is TokDec || old(self)@.curr
                is TokArg || old(self)@.curr is TokParam || old(self)@.curr is TokRead || old(self)@.curr is TokWrite,
        ensures
            final(self).wf(),
            ends_in(spec_keyword_instr(start(old(self)@)).0, final(self)@, error_of(instr)),
            instr is Ok ==> instr->Ok_0@ == spec_keyword_instr(start(old(self)@)).1,
            instr is Ok ==> final(self)@.weight() < old(self)@.weight(),
    {
        let first = match self.take() {
            Ok(token) => token,
            Err(error) => {
                return Err(error);
            },
        };
        let x = match self.parse_operand() {
            Ok(x) => x,
            Err(error) => {
                return Err(error);
            },
        };
        match first {
            Token::TokReturn => Ok(Instr::Return(x)),
            Token::TokDec => match self.parse_int() {
                Ok(size) => Ok(Instr::Dec(x, size)),
                Err(error) => Err(error),
            },
            Token::TokArg => Ok(Instr::Arg(x)),
            Token::TokParam => Ok(Instr::Param(x)),
            Token::TokRead => Ok(Instr::Read(x)),
            _ => Ok(Instr::Write(x)),
        }
    }

    /// One instruction.
    pub fn parse_instr(&mut self) -> (instr: Result<Instr, SyntaxError>)
        requires
            old(self).wf(),
        ensures
            final(self).wf(),
            ends_in(spec_instr(start(old(self)@)).0, final(self)@, error_of(instr)),
            instr is Ok ==> instr->Ok_0@ == spec_instr(start(old(self)@)).1,
            instr is Ok ==> final(self)@.weight() < old(self)@.weight(),
    {
        match self.lexer.peek() {
            Token::TokIden(_) => {
                let x = match self.parse_operand() {
                    Ok(x) => x,
                    Err(error) => {
                        return Err(error);
                    },
                };
                match self.take() {
                    Ok(_) => {},
                    Err(error) => {
                        return Err(error);
                    },
                }
                self.parse_source(x)
            },
            Token::TokLabel | Token::TokStar | Token::TokGoto | Token::TokIf => self.parse_jump(),
            Token::TokReturn | Token::TokDec | Token::TokArg | Token::TokParam | Token::TokRead
            | Token::TokWrite => self.parse_plain(),
            _ => Err(SyntaxError::BadToken),
        }
    }
}

impl Parser {
    /// The instructions of one function.
    pub fn parse_body(&mut self) -> (body: Result<Vec<Instr>, SyntaxError>)
        requires
            old(self).wf(),
        ensures
            final(self).wf(),
            ends_in(spec_body(start(old(self)@)).0, final(self)@, error_of(body)),
            body is Ok ==> body_view(body->Ok_0@) == spec_body(start(old(self)@)).1,
            body is Ok ==> final(self)@.weight() <= old(self)@.weight(),
    {
        let ghost whole = spec_body(start(self@));
        let mut body: Vec<Instr> = Vec::new();
        assert(body_view(body@) + whole.1 =~= whole.1);
        loop
            invariant
                self.wf(),
                whole == spec_body(start(old(self)@)),
                whole.0 == spec_body(start(self@)).0,
                whole.1 == body_view(body@) + spec_body(start(self@)).1,
                self@.weight() <= old(self)@.weight(),
            decreases self@.weight(),
        {
            match self.lexer.peek() {
                Token::TokFunc | Token::TokEOF => {
                    assert(body_view(body@) + Seq::<InstrView>::empty() =~= body_view(body@));
                    return Ok(body);
                },
                Token::TokIf
                | Token::TokLabel
                | Token::TokIden(_)
                | Token::TokStar
                | Token::TokGoto
                | Token::TokReturn
                | Token::TokWrite
                | Token::TokRead
                | Token::TokParam
                | Token::TokDec
                | Token::TokArg => {
                    let ghost done = body_view(body@);
                    let instr = match self.parse_instr() {
                        Ok(instr) => instr,
                        Err(error) => {
                            return Err(error);
                        },
                    };
                    body.push(instr);
                    proof {
                        let rest = spec_body(start(self@)).1;
                        assert(body_view(body@) =~= done.push(instr@));
                        assert(done + (seq![instr@] + rest) =~= done.push(instr@) + rest);
                    }
                },
                _ => {
                    return Err(SyntaxError::BadToken);
                },
            }
        }
    }

    /// One function.
    pub fn parse_func(&mut self) -> (func: Result<Func, SyntaxError>)
        requires
            old(self).wf(),
        ensures
            final(self).wf(),
            ends_in(spec_func(start(old(self)@)).0, final(self)@, error_of(func)),
            func is Ok ==> func->Ok_0@ == spec_func(start(old(self)@)).1,
            func is Ok && !(old(self)@.curr is TokEOF) ==> final(self)@.weight() < old(self)@.weight(),
    {
        match self.take() {
            Ok(_) => {},
            Err(error) => {
                return Err(error);
            },
        }
        let name = match self.parse_name() {
            Ok(name) => name,
            Err(error) => {
                return Err(error);
            },
        };
        match self.take() {
            Ok(_) => {},
            Err(error) => {
                return Err(error);
            },
        }
        match self.parse_body() {
            Ok(body) => Ok(Func { name, body, nreg: 0, id: 0 }),
            Err(error) => Err(error),
        }
    }

    /// The program: its functions in the order of the text, none of them
    /// resolved.
    pub fn parse(&mut self) -> (program: Result<Program, SyntaxError>)
        requires
            old(self).wf(),
        ensures
            final(self).wf(),
            ends_in(spec_funcs(start(old(self)@)).0, final(self)@, error_of(program)),
            program is Ok ==> program->Ok_0@ == (ProgramView {
                funcs: spec_funcs(start(old(self)@)).1,
                entry: 0,
            }),
    {
        let ghost whole = spec_funcs(start(self@));
        let mut funcs: VecDeque<Func> = VecDeque::new();
        assert(funcs_view(funcs@) + whole.1 =~= whole.1);
        loop
            invariant
                self.wf(),
                whole == spec_funcs(start(old(self)@)),
                whole.0 == spec_funcs(start(self@)).0,
                whole.1 == funcs_view(funcs@) + spec_funcs(start(self@)).1,
            decreases self@.weight(),
        {
            match self.lexer.peek() {
                Token::TokFunc => {
                    let ghost done = funcs_view(funcs@);
                    let func = match self.parse_func() {
                        Ok(func) => func,
                        Err(error) => {
                            return Err(error);
                        },
                    };
                    funcs.push_back(func);
                    proof {
                        let rest = spec_funcs(start(self@)).1;
                        assert(funcs_view(funcs@) =~= done.push(func@));
                        assert(done + (seq![func@] + rest) =~= done.push(func@) + rest);
                    }
                },
                Token::TokEOF => {
                    assert(funcs_view(funcs@) + Seq::<FuncView>::empty() =~= funcs_view(funcs@));
                    return Ok(Program { funcs, entry: 0 });
                },
                _ => {
                    return Err(SyntaxError::BadToken);
                },
            }
        }
    }
}

} // verus!
