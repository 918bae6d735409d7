//! Static types of the language, and how annotations map to them.
use vstd::prelude::*;

use std::sync::Arc;

use crate::compiler::parser::{
    cursor_advance, cursor_consume, cursor_measure, lemma_reports_compose, lemma_skip_errors_safe,
    Cursor, Parser, Report,
};
use crate::scanner::{scan_safe, Scanner, TokenType};
use crate::text::{join3, string_from};

verus! {

/// The static type of a value, as the compiler tracks it.
#[derive(Debug)]
pub enum TypeTag {
    Int,
    Float,
    Str,
    Bool,
    Char,
    Unt,
    Void,
    NoneType,
    Array(Arc<TypeTag>),
    Opt(Arc<TypeTag>),
}

/// The byte that encodes a type tag in bytecode: a wrapped type encodes as the type it wraps.
pub open spec fn spec_tag_byte(t: TypeTag) -> u8
    decreases t,
{
    match t {
        TypeTag::Int => 0,
        TypeTag::Unt => 1,
        TypeTag::Float => 2,
        TypeTag::Str => 3,
        TypeTag::Char => 4,
        TypeTag::Bool => 5,
        TypeTag::Void => 6,
        TypeTag::NoneType => 7,
        TypeTag::Array(x) => spec_tag_byte(*x),
        TypeTag::Opt(x) => spec_tag_byte(*x),
    }
}

/// How a type tag prints: the name of the innermost type.
pub open spec fn spec_tag_name(t: TypeTag) -> Seq<char>
    decreases t,
{
    match t {
        TypeTag::Int => seq!['i', 'n', 't'],
        TypeTag::Float => seq!['f', 'l', 'o', 'a', 't'],
        TypeTag::Bool => seq!['b', 'o', 'o', 'l'],
        TypeTag::Str => seq!['s', 't', 'r'],
        TypeTag::Void => seq!['v', 'o', 'i', 'd'],
        TypeTag::Char => seq!['c', 'h', 'a', 'r'],
        TypeTag::Unt => seq!['u', 'n', 't'],
        TypeTag::NoneType => seq!['N', 'o', 'n', 'e'],
        TypeTag::Opt(x) => spec_tag_name(*x),
        TypeTag::Array(x) => spec_tag_name(*x),
    }
}

/// The type tag that a type keyword names.
pub open spec fn spec_keyword_tag(tt: TokenType) -> Option<TypeTag> {
    match tt {
        TokenType::Int => Option::Some(TypeTag::Int),
        TokenType::Unt => Option::Some(TypeTag::Unt),
        TokenType::Float => Option::Some(TypeTag::Float),
        TokenType::Str => Option::Some(TypeTag::Str),
        TokenType::Char => Option::Some(TypeTag::Char),
        TokenType::Void => Option::Some(TypeTag::NoneType),
        _ => Option::None,
    }
}

impl TokenType {
    /// The type tag that this token names as a type annotation, if any.
    pub fn as_typetag(&self) -> (r: Option<TypeTag>)
        ensures
            r == spec_keyword_tag(*self),
    {
        match self {
            TokenType::Int => Some(TypeTag::Int),
            TokenType::Unt => Some(TypeTag::Unt),
            TokenType::Float => Some(TypeTag::Float),
            TokenType::Str => Some(TypeTag::Str),
            TokenType::Char => Some(TypeTag::Char),
            TokenType::Void => Some(TypeTag::NoneType),
            _ => None,
        }
    }
}

impl Clone for TypeTag {
    fn clone(&self) -> (r: Self)
        ensures
            r == *self,
        decreases self,
    {
        match self {
            TypeTag::Int => TypeTag::Int,
            TypeTag::Float => TypeTag::Float,
            TypeTag::Str => TypeTag::Str,
            TypeTag::Bool => TypeTag::Bool,
            TypeTag::Char => TypeTag::Char,
            TypeTag::Unt => TypeTag::Unt,
            TypeTag::Void => TypeTag::Void,
            TypeTag::NoneType => TypeTag::NoneType,
            TypeTag::Array(x) => TypeTag::Array(Arc::new((**x).clone())),
            TypeTag::Opt(x) => TypeTag::Opt(Arc::new((**x).clone())),
        }
    }
}

impl PartialEq for TypeTag {
    fn eq(&self, other: &Self) -> (r: bool)
        decreases self,
    {
        match (self, other) {
            (TypeTag::Int, TypeTag::Int) => true,
            (TypeTag::Float, TypeTag::Float) => true,
            (TypeTag::Str, TypeTag::Str) => true,
            (TypeTag::Bool, TypeTag::Bool) => true,
            (TypeTag::Char, TypeTag::Char) => true,
            (TypeTag::Unt, TypeTag::Unt) => true,
            (TypeTag::Void, TypeTag::Void) => true,
            (TypeTag::NoneType, TypeTag::NoneType) => true,
            (TypeTag::Array(x), TypeTag::Array(y)) => (**x).eq(&**y),
            (TypeTag::Opt(x), TypeTag::Opt(y)) => (**x).eq(&**y),
            _ => false,
        }
    }
}

impl vstd::std_specs::cmp::PartialEqSpecImpl for TypeTag {
    open spec fn obeys_eq_spec() -> bool {
        true
    }

    open spec fn eq_spec(&self, other: &Self) -> bool {
        *self == *other
    }
}

impl Eq for TypeTag {

}

impl TypeTag {
    /// The byte that encodes this type in bytecode (see `spec_tag_byte`).
    pub fn as_bytes(&self) -> (b: u8)
        ensures
            b == spec_tag_byte(*self),
        decreases self,
    {
        match self {
            TypeTag::Int => 0,
            TypeTag::Unt => 1,
            TypeTag::Float => 2,
            TypeTag::Str => 3,
            TypeTag::Char => 4,
            TypeTag::Bool => 5,
            TypeTag::Void => 6,
            TypeTag::NoneType => 7,
            TypeTag::Array(x) => (**x).as_bytes(),
            TypeTag::Opt(x) => (**x).as_bytes(),
        }
    }

    /// The type inside an `Array` or `Opt`; `Void` for any other type.
    pub fn extract(self) -> (r: Arc<TypeTag>)
        ensures
            *r == (match self {
                TypeTag::Array(x) => *x,
                TypeTag::Opt(x) => *x,
                _ => TypeTag::Void,
            }),
    {
        match self {
            TypeTag::Array(x) => x,
            TypeTag::Opt(x) => x,
            _ => Arc::new(TypeTag::Void),
        }
    }

    /// Whether this is an `Opt` type.
    pub fn is_opt(&self) -> (r: bool)
        ensures
            r == (*self is Opt),
    {
        match self {
            TypeTag::Opt(_) => true,
            _ => false,
        }
    }

    /// How the type prints (see `spec_tag_name`).
    pub fn to_string(&self) -> (s: String)
        ensures
            s@ == spec_tag_name(*self),
        decreases self,
    {
        match self {
            TypeTag::Int => {
                let s = string_from("int");
                proof {
                    reveal_strlit("int");
                    assert("int"@ =~= seq!['i', 'n', 't']);
                }
                s
            },
            TypeTag::Float => {
                let s = string_from("float");
                proof {
                    reveal_strlit("float");
                    assert("float"@ =~= seq!['f', 'l', 'o', 'a', 't']);
                }
                s
            },
            TypeTag::Bool => {
                let s = string_from("bool");
                proof {
                    reveal_strlit("bool");
                    assert("bool"@ =~= seq!['b', 'o', 'o', 'l']);
                }
                s
            },
            TypeTag::Str => {
                let s = string_from("str");
                proof {
                    reveal_strlit("str");
                    assert("str"@ =~= seq!['s', 't', 'r']);
                }
                s
            },
            TypeTag::Void => {
                let s = string_from("void");
                proof {
                    reveal_strlit("void");
                    assert("void"@ =~= seq!['v', 'o', 'i', 'd']);
                }
                s
            },
            TypeTag::Char => {
                let s = string_from("char");
                proof {
                    reveal_strlit("char");
                    assert("char"@ =~= seq!['c', 'h', 'a', 'r']);
                }
                s
            },
            TypeTag::Unt => {
                let s = string_from("unt");
                proof {
                    reveal_strlit("unt");
                    assert("unt"@ =~= seq!['u', 'n', 't']);
                }
                s
            },
            TypeTag::NoneType => {
                let s = string_from("None");
                proof {
                    reveal_strlit("None");
                    assert("None"@ =~= seq!['N', 'o', 'n', 'e']);
                }
                s
            },
            TypeTag::Opt(x) => (**x).to_string(),
            TypeTag::Array(x) => (**x).to_string(),
        }
    }
}

/// The type an annotation of the type `id` stands for: wrapped in an `Array`
/// when `is_array`, and that in an `Opt` when `is_opt`.
pub open spec fn expected_tag(id: TypeTag, is_array: bool, is_opt: bool) -> TypeTag {
    let inner = if is_array {
        TypeTag::Array(Arc::new(id))
    } else {
        id
    };
    if is_opt {
        TypeTag::Opt(Arc::new(inner))
    } else {
        inner
    }
}

/// How the type of `expected_tag` is written in a message.
pub open spec fn expected_kind(id: TypeTag, is_array: bool, is_opt: bool) -> Seq<char> {
    let name = spec_tag_name(id);
    let inner = if is_array {
        "Array["@ + name + "]"@
    } else {
        name
    };
    if is_opt {
        "Opt["@ + inner + "]"@
    } else {
        inner
    }
}

/// The message for a value of type `found` where `expected` was annotated.
pub open spec fn mismatch_message(expected: Seq<char>, found: TypeTag) -> Seq<char> {
    "Mismatched types, expected ["@ + expected + "] found ["@ + spec_tag_name(found) + "]"@
}

impl Parser {
    /// Checks `type_tag` against the annotation `token` (an array's element type
    /// when `is_array`, wrapped in `Opt` when `is_opt`): a mismatch is reported at
    /// the previous token. A token that names no type checks nothing.
    pub fn type_check(&mut self, type_tag: &TypeTag, token: &TokenType, is_array: bool, is_opt: bool)
        ensures
            match spec_keyword_tag(*token) {
                Option::Some(id) => if expected_tag(id, is_array, is_opt) == *type_tag {
                    *final(self) == *old(self)
                } else {
                    &&& final(self).same_but_errors(old(self))
                    &&& final(self).reported(
                        old(self),
                        old(self).previous@,
                        mismatch_message(expected_kind(id, is_array, is_opt), *type_tag),
                    )
                },
                Option::None => *final(self) == *old(self),
            },
    {
        if let Some(id) = token.as_typetag() {
            let expected = match (is_array, is_opt) {
                (true, false) => TypeTag::Array(Arc::new(id.clone())),
                (true, true) => TypeTag::Opt(Arc::new(TypeTag::Array(Arc::new(id.clone())))),
                (false, true) => TypeTag::Opt(Arc::new(id.clone())),
                (false, false) => id.clone(),
            };
            if expected != *type_tag {
                let name = id.to_string();
                let kind = match (is_array, is_opt) {
                    (true, false) => join3("Array[", name.as_str(), "]"),
                    (true, true) => join3("Opt[Array[", name.as_str(), "]]"),
                    (false, true) => join3("Opt[", name.as_str(), "]"),
                    (false, false) => name,
                };
                let found = type_tag.to_string();
                let head = join3("Mismatched types, expected [", kind.as_str(), "] found [");
                let message = join3(head.as_str(), found.as_str(), "]");
                proof {
                    reveal_strlit("Opt[Array[");
                    reveal_strlit("Opt[");
                    reveal_strlit("Array[");
                    reveal_strlit("]]");
                    reveal_strlit("]");
                    assert(message@ =~= mismatch_message(
                        expected_kind(id, is_array, is_opt),
                        *type_tag,
                    ));
                }
                self.error(message.as_str());
            }
        }
    }
}

/// Whether every type of `tags` is its first.
pub open spec fn all_same(tags: Seq<TypeTag>) -> bool {
    forall|i: int| 0 <= i < tags.len() ==> #[trigger] tags[i] == tags[0]
}

impl Parser {
    /// The type of an array literal whose elements have the types `type_tag`: an
    /// array of the first element's type (an array of `Void` arrays when there is
    /// no element). Elements of differing types are reported.
    pub fn array_type_check(&mut self, type_tag: &mut Vec<TypeTag>) -> (r: TypeTag)
        ensures
            final(type_tag)@ == old(type_tag)@,
            r == TypeTag::Array(
                Arc::new(
                    if old(type_tag)@.len() > 0 {
                        old(type_tag)@[0]
                    } else {
                        TypeTag::Array(Arc::new(TypeTag::Void))
                    },
                ),
            ),
            all_same(old(type_tag)@) ==> *final(self) == *old(self),
            !all_same(old(type_tag)@) ==> {
                &&& final(self).same_but_errors(old(self))
                &&& final(self).reported(
                    old(self),
                    old(self).previous@,
                    "Arrays must contain the same type for all of its slots."@,
                )
            },
    {
        let mut typetag = TypeTag::Array(Arc::new(TypeTag::Void));
        if type_tag.len() > 0 {
            typetag = type_tag[0].clone();
            let mut i: usize = 0;
            let mut same = true;
            while i < type_tag.len()
                invariant
                    i <= type_tag@.len(),
                    type_tag@.len() > 0,
                    same == (forall|j: int| 0 <= j < i ==> #[trigger] type_tag@[j] == type_tag@[0]),
                decreases type_tag.len() - i,
            {
                if type_tag[i] != type_tag[0] {
                    same = false;
                }
                i = i + 1;
            }
            if !same {
                self.error("Arrays must contain the same type for all of its slots.");
            }
        }
        TypeTag::Array(Arc::new(typetag))
    }
}

/// The element type that a type keyword names inside `Array[..]`: `Void` for a
/// token that names none of them.
pub open spec fn elem_tag(tt: TokenType) -> TypeTag {
    match tt {
        TokenType::Int => TypeTag::Int,
        TokenType::Unt => TypeTag::Unt,
        TokenType::Float => TypeTag::Float,
        TokenType::Str => TypeTag::Str,
        TokenType::Bool => TypeTag::Bool,
        TokenType::Char => TypeTag::Char,
        _ => TypeTag::Void,
    }
}

/// What `array_type` reads from `c`: `[`, an element type, `]`, where an element
/// type `Array` is read the same way (and the array type read is the result); the
/// result, the cursor after it, and the reports made.
pub open spec fn spec_array_type(c: Cursor) -> (TypeTag, Cursor, Seq<Report>)
    decreases cursor_measure(c),
{
    let (c1, e1) = cursor_consume(c, TokenType::LeftBracket, "Exp"@);
    let (c2, e2) = cursor_advance(c1);
    let (tag, c3, e3) = if c2.previous.token_type == TokenType::Array && 0 <= cursor_measure(c2)
        < cursor_measure(c) {
        spec_array_type(c2)
    } else {
        (TypeTag::Array(Arc::new(elem_tag(c2.previous.token_type))), c2, Seq::empty())
    };
    let (c4, e4) = cursor_consume(c3, TokenType::RightBracket, "Exp"@);
    (tag, c4, e1 + e2 + e3 + e4)
}

impl Parser {
    /// Reads the rest of an array annotation, from its `[` (see `spec_array_type`).
    pub fn array_type(&mut self, scanner: &mut Scanner) -> (r: TypeTag)
        requires
            old(scanner).wf(),
            scan_safe(old(scanner)@),
        ensures
            final(scanner).wf(),
            scan_safe(final(scanner)@),
            ({
                let (tag, c, reps) = spec_array_type(old(self).at(old(scanner)@));
                &&& r == tag
                &&& final(self).at(final(scanner)@) == c
                &&& final(self).reports_made(old(self), reps)
            }),
            final(self).with_reading_state_of(old(self)) == *old(self),
            cursor_measure(final(self).at(final(scanner)@)) <= cursor_measure(
                old(self).at(old(scanner)@),
            ),
        decreases cursor_measure(old(self).at(old(scanner)@)),
    {
        let ghost c0 = self.at(scanner@);
        let ghost p0 = *self;
        self.consume(TokenType::LeftBracket, "Exp", scanner);
        let ghost p1 = *self;
        proof {
            scanner.lemma_wf();
            lemma_skip_errors_safe(scanner@);
        }
        self.advance(scanner);
        proof {
            scanner.lemma_wf();
        }
        let ghost p2 = *self;
        let ghost (c1, e1) = cursor_consume(c0, TokenType::LeftBracket, "Exp"@);
        let ghost (c2, e2) = cursor_advance(c1);
        proof {
            lemma_reports_compose(p1, p2, p0.painc_mode, p0.had_err, p0.diagnostics@, e1, e2);
        }
        let array = match self.previous.token_type {
            TokenType::Int => TypeTag::Array(Arc::new(TypeTag::Int)),
            TokenType::Unt => TypeTag::Array(Arc::new(TypeTag::Unt)),
            TokenType::Float => TypeTag::Array(Arc::new(TypeTag::Float)),
            TokenType::Str => TypeTag::Array(Arc::new(TypeTag::Str)),
            TokenType::Bool => TypeTag::Array(Arc::new(TypeTag::Bool)),
            TokenType::Char => TypeTag::Array(Arc::new(TypeTag::Char)),
            TokenType::Array => {
                let inner = self.array_type(scanner);
                proof {
                    let (t3, c3, e3) = spec_array_type(c2);
                    lemma_reports_compose(
                        p2,
                        *self,
                        p0.painc_mode,
                        p0.had_err,
                        p0.diagnostics@,
                        e1 + e2,
                        e3,
                    );
                }
                inner
            },
            _ => TypeTag::Array(Arc::new(TypeTag::Void)),
        };
        let ghost p3 = *self;
        let ghost (t3, c3, e3) = if c2.previous.token_type == TokenType::Array && 0 <= cursor_measure(
            c2,
        ) < cursor_measure(c0) {
            spec_array_type(c2)
        } else {
            (TypeTag::Array(Arc::new(elem_tag(c2.previous.token_type))), c2, Seq::<Report>::empty())
        };
        proof {
            if !(c2.previous.token_type == TokenType::Array) {
                assert(e1 + e2 + e3 =~= e1 + e2);
            }
        }
        self.consume(TokenType::RightBracket, "Exp", scanner);
        proof {
            let (c4, e4) = cursor_consume(c3, TokenType::RightBracket, "Exp"@);
            lemma_reports_compose(
                p3,
                *self,
                p0.painc_mode,
                p0.had_err,
                p0.diagnostics@,
                e1 + e2 + e3,
                e4,
            );
        }
        array
    }

    /// Reads an array annotation from its `[` (see `array_type`); the flag says
    /// that it is an array.
    pub fn parse_array_typetag(&mut self, scanner: &mut Scanner) -> (r: (TypeTag, bool))
        requires
            old(scanner).wf(),
            scan_safe(old(scanner)@),
        ensures
            final(scanner).wf(),
            scan_safe(final(scanner)@),
            ({
                let (tag, c, reps) = spec_array_type(old(self).at(old(scanner)@));
                &&& r == (tag, true)
                &&& final(self).at(final(scanner)@) == c
                &&& final(self).reports_made(old(self), reps)
            }),
            final(self).with_reading_state_of(old(self)) == *old(self),
            cursor_measure(final(self).at(final(scanner)@)) <= cursor_measure(
                old(self).at(old(scanner)@),
            ),
    {
        let array = self.array_type(scanner);
        (array, true)
    }
}

} // verus!
