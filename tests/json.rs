use recuns::{do_iter, do_loop, Recuns, RecunsEx, RecunsFlow};
use std::cell::RefCell;
use std::collections::{BTreeMap, VecDeque};
use std::fmt;
use std::ops::Range;
use std::rc::Rc;
use std::sync::Arc;

const CODE: &str = r#"{ "a": 1, "b": true, "c": [null, 1.5, false], "d": { "v": "asd" } }"#;

#[derive(Debug, Clone, PartialEq)]
pub enum Token {
    Empty,
    Str(String, Range<usize>),
    Num(f64, Range<usize>),
    Bool(bool, Range<usize>),
    Null(Range<usize>),
    ArrS(Range<usize>),
    ArrE(Range<usize>),
    ObjS(Range<usize>),
    ObjE(Range<usize>),
    Comma(Range<usize>),
    Colon(Range<usize>),
}

impl Default for Token {
    fn default() -> Self {
        Token::Empty
    }
}

#[derive(Debug, Clone, PartialEq)]
pub enum TokenError {
    NotNum(Range<usize>),
    NeedButEof(char, usize),
    NeedSomeButEof(String, usize),
    Eof(usize),
    NeedEscape(usize),
    IllegalEscape(char, usize),
    UnknownWord(String, Range<usize>),
    UnknownCharacter(char, usize),
}

impl fmt::Display for TokenError {
    fn fmt(&self, f: &mut fmt::Formatter<'_>) -> fmt::Result {
        f.write_str(&format!("{:?}", self))
    }
}

impl std::error::Error for TokenError {}

#[derive(Debug, Clone, PartialEq)]
pub enum JsonParserError {
    NeedButEof(String),
    ExcessToken(Token),
    NeedBut(String, Token),
}

impl fmt::Display for JsonParserError {
    fn fmt(&self, f: &mut fmt::Formatter<'_>) -> fmt::Result {
        f.write_str(&format!("{:?}", self))
    }
}

impl std::error::Error for JsonParserError {}

#[derive(Debug, Clone, PartialEq)]
pub enum JsonValue {
    Null,
    Bool(bool),
    Num(f64),
    Str(String),
    Arr(Vec<JsonValue>),
    Obj(BTreeMap<String, JsonValue>),
}

fn fail<H>(e: impl std::error::Error + Send + Sync + 'static) -> RecunsFlow<H> {
    RecunsFlow::from(Arc::new(anyhow::Error::new(e)))
}

// ---------------------------------------------------------------- tokenizer

pub struct TokenData {
    index: usize,
    tokens: Vec<Token>,
}

type TkFn = Box<dyn FnMut(char, &mut TokenData, bool) -> RecunsFlow<Tk>>;

/// A tokenizer handler: a boxed closure.
pub struct Tk(TkFn);

impl Recuns<char, TokenData> for Tk {
    fn check(&mut self, input: char, data: &mut TokenData, eof: bool) -> RecunsFlow<Tk> {
        (self.0)(input, data, eof)
    }
}

fn tk(f: impl FnMut(char, &mut TokenData, bool) -> RecunsFlow<Tk> + 'static) -> Tk {
    Tk(Box::new(f))
}

fn tokens(code: &str) -> Result<Vec<Token>, Vec<Arc<anyhow::Error>>> {
    let mut chars = code.chars();
    let mut it = do_iter(
        TokenData { index: 0, tokens: vec![] },
        tk(token_root),
        true,
        move |d: &mut TokenData| {
            chars.next().map(|v| {
                d.index += 1;
                Ok(v)
            })
        },
        |d: &mut TokenData| {
            if d.tokens.is_empty() {
                return None;
            }
            Some(d.tokens.drain(..).collect::<VecDeque<Token>>())
        },
    );
    let mut out = vec![];
    while let Some(t) = it.next() {
        out.push(t);
    }
    if it.errors().is_empty() {
        Ok(out)
    } else {
        Err(it.errors().clone())
    }
}

fn token_root(inp: char, data: &mut TokenData, eof: bool) -> RecunsFlow<Tk> {
    if eof || inp == '\0' {
        return RecunsFlow::End;
    }
    let sp = data.index;
    if let Some(f) = check_number(inp, sp) {
        return f;
    }
    if let Some(f) = check_string(inp, sp) {
        return f;
    }
    if let Some(f) = check_word(inp, sp) {
        return f;
    }
    if let Some(f) = check_space(inp) {
        return f;
    }
    if let Some(f) = check_symbol(inp, data, sp) {
        return f;
    }
    fail(TokenError::UnknownCharacter(inp, sp))
}

fn is_num_start(c: char) -> bool {
    c == '-' || c == '.' || c.is_ascii_digit()
}

fn is_num(c: char) -> bool {
    is_num_start(c) || c == 'e' || c == 'E' || c == '+'
}

fn check_number(first: char, sp: usize) -> Option<RecunsFlow<Tk>> {
    if !is_num_start(first) {
        return None;
    }
    let mut strs = vec![first];
    let h = tk(move |inp, data: &mut TokenData, eof| {
        if eof || inp == '\0' || !is_num(inp) {
            let s: String = strs.iter().collect();
            let np = data.index - 1;
            if !s.chars().any(|c| c.is_ascii_digit()) {
                return fail(TokenError::NotNum(sp..np));
            }
            return match s.parse::<f64>() {
                Ok(f) => {
                    data.tokens.push(Token::Num(f, sp..np));
                    RecunsFlow::EndReDo
                }
                Err(_) => fail(TokenError::NotNum(sp..np)),
            };
        }
        strs.push(inp);
        RecunsFlow::Stay
    });
    Some(h.rfcall_next("check_number"))
}

fn check_string(first: char, sp: usize) -> Option<RecunsFlow<Tk>> {
    if first != '"' {
        return None;
    }
    let strs: Rc<RefCell<Vec<char>>> = Rc::new(RefCell::new(vec![]));
    let h = tk(move |inp, data: &mut TokenData, eof| {
        if eof || inp == '\0' {
            return fail(TokenError::NeedButEof('"', data.index));
        }
        if inp == '\u{8}' || inp == '\u{c}' || inp == '\n' || inp == '\r' || inp == '\t' {
            return fail(TokenError::NeedEscape(data.index));
        }
        if inp == '"' {
            let s: String = strs.borrow().iter().collect();
            data.tokens.push(Token::Str(s, sp..data.index));
            return RecunsFlow::End;
        }
        if inp == '\\' {
            return check_escape(strs.clone());
        }
        strs.borrow_mut().push(inp);
        RecunsFlow::Stay
    });
    Some(h.rfcall_next("check_string"))
}

fn unescape(c: char) -> char {
    match c {
        'b' => '\u{8}',
        'f' => '\u{c}',
        'n' => '\n',
        'r' => '\r',
        't' => '\t',
        _ => c,
    }
}

fn check_escape(strs: Rc<RefCell<Vec<char>>>) -> RecunsFlow<Tk> {
    let h = tk(move |inp, data: &mut TokenData, eof| {
        if eof || inp == '\0' {
            return fail(TokenError::NeedSomeButEof("Escape Character".into(), data.index));
        }
        if "\\\"/bfnrt".contains(inp) {
            strs.borrow_mut().push(unescape(inp));
            return RecunsFlow::End;
        }
        if inp == 'u' {
            let strs = strs.clone();
            let mut uc: Vec<char> = vec![];
            let u = tk(move |inp, data: &mut TokenData, eof| {
                if eof || inp == '\0' {
                    return fail(TokenError::Eof(data.index));
                }
                if !inp.is_ascii_hexdigit() {
                    return fail(TokenError::IllegalEscape(inp, data.index));
                }
                uc.push(inp);
                if uc.len() == 4 {
                    let s: String = uc.iter().collect();
                    let hex = u32::from_str_radix(&s, 16).unwrap_or(0xfffd);
                    strs.borrow_mut().push(char::from_u32(hex).unwrap_or('\u{fffd}'));
                    return RecunsFlow::End;
                }
                RecunsFlow::Stay
            });
            return u.rfmov_next("check_escape_unicode");
        }
        fail(TokenError::IllegalEscape(inp, data.index))
    });
    h.rfcall_next("check_escape")
}

fn check_word(first: char, sp: usize) -> Option<RecunsFlow<Tk>> {
    if !first.is_alphanumeric() {
        return None;
    }
    let mut ws = vec![first];
    let h = tk(move |inp: char, data: &mut TokenData, eof| {
        if eof || inp == '\0' || !inp.is_alphanumeric() {
            let s: String = ws.iter().collect();
            let np = data.index - 1;
            if s == "true" {
                data.tokens.push(Token::Bool(true, sp..np));
            } else if s == "false" {
                data.tokens.push(Token::Bool(false, sp..np));
            } else if s == "null" {
                data.tokens.push(Token::Null(sp..np));
            } else {
                return fail(TokenError::UnknownWord(s, sp..np));
            }
            return RecunsFlow::EndReDo;
        }
        ws.push(inp);
        RecunsFlow::Stay
    });
    Some(h.rfcall_next("check_word"))
}

fn check_symbol(first: char, data: &mut TokenData, sp: usize) -> Option<RecunsFlow<Tk>> {
    let np = data.index;
    let t = match first {
        ',' => Token::Comma(sp..np),
        ':' => Token::Colon(sp..np),
        '{' => Token::ObjS(sp..np),
        '}' => Token::ObjE(sp..np),
        '[' => Token::ArrS(sp..np),
        ']' => Token::ArrE(sp..np),
        _ => return None,
    };
    data.tokens.push(t);
    Some(RecunsFlow::Stay)
}

fn check_space(first: char) -> Option<RecunsFlow<Tk>> {
    if !first.is_whitespace() {
        return None;
    }
    let h = tk(|inp: char, _: &mut TokenData, eof| {
        if eof || inp == '\0' || !inp.is_whitespace() {
            return RecunsFlow::EndReDo;
        }
        RecunsFlow::Stay
    });
    Some(h.rfcall_next("check_space"))
}

// ---------------------------------------------------------------- parser

pub struct ParserData {
    out: Rc<RefCell<Option<JsonValue>>>,
}

type PsFn = Box<dyn FnMut(Token, &mut ParserData, bool) -> RecunsFlow<Ps>>;

/// A parser handler: a boxed closure.
pub struct Ps(PsFn);

impl Recuns<Token, ParserData> for Ps {
    fn check(&mut self, input: Token, data: &mut ParserData, eof: bool) -> RecunsFlow<Ps> {
        (self.0)(input, data, eof)
    }
}

fn ps(f: impl FnMut(Token, &mut ParserData, bool) -> RecunsFlow<Ps> + 'static) -> Ps {
    Ps(Box::new(f))
}

type Sink = Box<dyn FnMut(JsonValue)>;

fn parse_root() -> Ps {
    ps(|inp, data: &mut ParserData, eof| {
        if eof {
            return RecunsFlow::End;
        }
        if data.out.borrow().is_some() {
            return fail(JsonParserError::ExcessToken(inp));
        }
        let out = data.out.clone();
        check_value(&inp, Box::new(move |v| *out.borrow_mut() = Some(v)))
    })
}

fn parse_tokens(root: Ps, toks: Vec<Token>) -> Result<Option<JsonValue>, Vec<Arc<anyhow::Error>>> {
    let out = Rc::new(RefCell::new(None));
    let mut toks = toks.into_iter();
    let r = do_loop(ParserData { out: out.clone() }, root, true, move |_: &mut ParserData| {
        toks.next().map(Ok)
    })?;
    assert!(r.is_some());
    let v = out.borrow_mut().take();
    Ok(v)
}

fn json(code: &str) -> Result<Option<JsonValue>, Vec<Arc<anyhow::Error>>> {
    parse_tokens(parse_root(), tokens(code)?)
}

fn check_value(inp: &Token, mut cb: Sink) -> RecunsFlow<Ps> {
    match inp {
        Token::Str(s, _) => cb(JsonValue::Str(s.clone())),
        Token::Num(n, _) => cb(JsonValue::Num(*n)),
        Token::Bool(b, _) => cb(JsonValue::Bool(*b)),
        Token::Null(_) => cb(JsonValue::Null),
        Token::ArrS(_) => return check_arr(cb).rfcall_next("check_arr"),
        Token::ObjS(_) => return check_obj(cb).rfcall_next("check_obj"),
        _ => return fail(JsonParserError::NeedBut("value".into(), inp.clone())),
    }
    RecunsFlow::Stay
}

fn check_arr(mut cb: Sink) -> Ps {
    let vals: Rc<RefCell<Vec<JsonValue>>> = Rc::new(RefCell::new(vec![]));
    let split = Rc::new(RefCell::new(false));
    ps(move |inp, _: &mut ParserData, eof| {
        if eof {
            return fail(JsonParserError::NeedButEof("]".into()));
        }
        if let Token::ArrE(_) = inp {
            cb(JsonValue::Arr(std::mem::take(&mut *vals.borrow_mut())));
            return RecunsFlow::End;
        }
        if *split.borrow() {
            *split.borrow_mut() = false;
            if let Token::Comma(_) = inp {
                return RecunsFlow::Stay;
            }
            return fail(JsonParserError::NeedBut(",".into(), inp));
        }
        let (vals, split) = (vals.clone(), split.clone());
        check_value(
            &inp,
            Box::new(move |v| {
                vals.borrow_mut().push(v);
                *split.borrow_mut() = true;
            }),
        )
    })
}

#[derive(Clone, Copy, PartialEq)]
enum Need {
    Key,
    Colon,
    Value,
    Comma,
}

fn check_obj(mut cb: Sink) -> Ps {
    let vals: Rc<RefCell<BTreeMap<String, JsonValue>>> = Rc::new(RefCell::new(BTreeMap::new()));
    let key: Rc<RefCell<Option<String>>> = Rc::new(RefCell::new(None));
    let need = Rc::new(RefCell::new(Need::Key));
    ps(move |inp, _: &mut ParserData, eof| {
        if eof {
            let what = match *need.borrow() {
                Need::Colon => ":",
                Need::Value => "value",
                _ => "}",
            };
            return fail(JsonParserError::NeedButEof(what.into()));
        }
        if let Token::ObjE(_) = inp {
            cb(JsonValue::Obj(std::mem::take(&mut *vals.borrow_mut())));
            return RecunsFlow::End;
        }
        let now = *need.borrow();
        match now {
            Need::Key => {
                if let Token::Str(k, _) = inp {
                    *key.borrow_mut() = Some(k);
                    *need.borrow_mut() = Need::Colon;
                } else {
                    return fail(JsonParserError::NeedBut("key".into(), inp));
                }
            }
            Need::Colon => {
                if let Token::Colon(_) = inp {
                    *need.borrow_mut() = Need::Value;
                } else {
                    return fail(JsonParserError::NeedBut(":".into(), inp));
                }
            }
            Need::Value => {
                let (vals, key, need) = (vals.clone(), key.clone(), need.clone());
                return check_value(
                    &inp,
                    Box::new(move |v| {
                        if let Some(k) = key.borrow_mut().take() {
                            vals.borrow_mut().insert(k, v);
                        }
                        *need.borrow_mut() = Need::Comma;
                    }),
                );
            }
            Need::Comma => {
                if let Token::Comma(_) = inp {
                    *need.borrow_mut() = Need::Key;
                } else {
                    return fail(JsonParserError::NeedBut(",".into(), inp));
                }
            }
        }
        RecunsFlow::Stay
    })
}

// ---------------------------------------------------------------- tests

#[test]
fn test_tokens() {
    let r = tokens(CODE);
    let r = r.unwrap();
    assert_eq!(
        r,
        vec![
            Token::ObjS(1..1),
            Token::Str("a".into(), 3..5),
            Token::Colon(6..6),
            Token::Num(1.0, 8..8),
            Token::Comma(9..9),
            Token::Str("b".into(), 11..13),
            Token::Colon(14..14),
            Token::Bool(true, 16..19),
            Token::Comma(20..20),
            Token::Str("c".into(), 22..24),
            Token::Colon(25..25),
            Token::ArrS(27..27),
            Token::Null(28..31),
            Token::Comma(32..32),
            Token::Num(1.5, 34..36),
            Token::Comma(37..37),
            Token::Bool(false, 39..43),
            Token::ArrE(44..44),
            Token::Comma(45..45),
            Token::Str("d".into(), 47..49),
            Token::Colon(50..50),
            Token::ObjS(52..52),
            Token::Str("v".into(), 54..56),
            Token::Colon(57..57),
            Token::Str("asd".into(), 59..63),
            Token::ObjE(65..65),
            Token::ObjE(67..67)
        ]
    );
}

#[test]
fn test_json() {
    let r = json(CODE);
    let r = r.unwrap();
    assert_eq!(
        r,
        Some(JsonValue::Obj({
            let mut m = BTreeMap::new();
            m.insert("a".into(), JsonValue::Num(1.0));
            m.insert("b".into(), JsonValue::Bool(true));
            m.insert(
                "c".into(),
                JsonValue::Arr(vec![JsonValue::Null, JsonValue::Num(1.5), JsonValue::Bool(false)]),
            );
            m.insert(
                "d".into(),
                JsonValue::Obj({
                    let mut m = BTreeMap::new();
                    m.insert("v".into(), JsonValue::Str("asd".into()));
                    m
                }),
            );
            m
        }))
    )
}

#[test]
fn number_alone_is_one_token() {
    let r = tokens("123").unwrap();
    assert_eq!(r, vec![Token::Num(123.0, 1..2)]);
}

#[test]
fn small_object_tokens_in_order() {
    let r = tokens(r#"{"a":1}"#).unwrap();
    assert_eq!(
        r,
        vec![
            Token::ObjS(1..1),
            Token::Str("a".into(), 2..4),
            Token::Colon(5..5),
            Token::Num(1.0, 6..6),
            Token::ObjE(7..7),
        ]
    );
}

#[test]
fn unterminated_string_gives_one_eof_error() {
    let mut chars = r#""ab"#.chars();
    let mut it = do_iter(
        TokenData { index: 0, tokens: vec![] },
        tk(token_root),
        true,
        move |d: &mut TokenData| {
            chars.next().map(|v| {
                d.index += 1;
                Ok(v)
            })
        },
        |d: &mut TokenData| {
            if d.tokens.is_empty() {
                return None;
            }
            Some(d.tokens.drain(..).collect::<VecDeque<Token>>())
        },
    );
    let mut out = vec![];
    while let Some(t) = it.next() {
        out.push(t);
    }
    assert!(out.is_empty());
    let errs = it.errors();
    assert_eq!(errs.len(), 1);
    assert_eq!(errs[0].downcast_ref::<TokenError>(), Some(&TokenError::NeedButEof('"', 3)));
}

#[test]
fn array_of_two_numbers() {
    let toks = tokens("[1,2]").unwrap();
    assert_eq!(
        toks,
        vec![Token::ArrS(1..1), Token::Num(1.0, 2..2), Token::Comma(3..3), Token::Num(2.0, 4..4), Token::ArrE(5..5)]
    );
    let got: Rc<RefCell<Option<JsonValue>>> = Rc::new(RefCell::new(None));
    let sink = got.clone();
    let arr = check_arr(Box::new(move |v| *sink.borrow_mut() = Some(v)));
    let r = parse_tokens(arr, toks[1..].to_vec());
    assert!(r.is_ok());
    assert_eq!(
        *got.borrow(),
        Some(JsonValue::Arr(vec![JsonValue::Num(1.0), JsonValue::Num(2.0)]))
    );
    assert_eq!(
        json("[1,2]").unwrap(),
        Some(JsonValue::Arr(vec![JsonValue::Num(1.0), JsonValue::Num(2.0)]))
    );
}

#[test]
fn excess_token_is_a_parser_error() {
    let r = json("1 2");
    let errs = r.err().unwrap();
    assert_eq!(errs.len(), 1);
    assert_eq!(
        errs[0].downcast_ref::<JsonParserError>(),
        Some(&JsonParserError::ExcessToken(Token::Num(2.0, 3..2)))
    );
}

#[test]
fn unknown_character_stops_the_tokenizer() {
    let errs = tokens("[1,#,2]").err().unwrap();
    assert_eq!(errs.len(), 1);
    assert_eq!(errs[0].downcast_ref::<TokenError>(), Some(&TokenError::UnknownCharacter('#', 4)));
}

#[test]
fn string_escapes_are_decoded() {
    let r = tokens(r#""a\nb\u0041""#).unwrap();
    assert_eq!(r, vec![Token::Str("a\nbA".into(), 1..12)]);
}
