//! A plain-data description of an annotated function, as far as the handler
//! contracts read it. Source fragments that are only passed through (types,
//! patterns, bodies) are held as text.

use vstd::prelude::*;

verus! {

/// The views of the items of a sequence, in order.
pub open spec fn views<T: View>(items: Seq<T>) -> Seq<T::V> {
    items.map_values(|item: T| item@)
}

/// The view of an optional text.
pub open spec fn text_view(text: Option<String>) -> Option<Seq<char>> {
    match text {
        Some(t) => Some(t@),
        None => None,
    }
}

/// Whether `text` holds exactly the characters of `word`.
pub fn text_is(text: &String, word: &str) -> (same: bool)
    ensures
        same == (text@ == word@),
{
    let owned = word.to_owned();
    *text == owned
}

/// Whether two texts hold the same characters.
pub fn same_text(a: &str, b: &str) -> (same: bool)
    ensures
        same == (a@ == b@),
{
    let left = a.to_owned();
    let right = b.to_owned();
    left == right
}

/// A copy of an optional text.
pub fn copy_text(text: &Option<String>) -> (copy: Option<String>)
    ensures
        copy == *text,
{
    match text {
        Some(t) => Some(t.clone()),
        None => None,
    }
}

/// An attribute: `#[path tokens]`, or `#![path tokens]` when it is not outer.
pub struct Attribute {
    /// `true` for `#[..]`, `false` for `#![..]`.
    pub outer: bool,
    /// The attribute's path, as written.
    pub path: String,
    /// Whether the path is a single identifier without arguments.
    pub plain: bool,
    /// Everything after the path, as written: empty, `(..)` or `= ..`.
    pub tokens: String,
    /// The expression that the arguments hold, as written, where they are
    /// one expression inside one pair of delimiters.
    pub expression: Option<String>,
}

pub struct AttributeView {
    pub outer: bool,
    pub path: Seq<char>,
    pub plain: bool,
    pub tokens: Seq<char>,
    pub expression: Option<Seq<char>>,
}

impl View for Attribute {
    type V = AttributeView;

    open spec fn view(&self) -> AttributeView {
        AttributeView {
            outer: self.outer,
            path: self.path@,
            plain: self.plain,
            tokens: self.tokens@,
            expression: text_view(self.expression),
        }
    }
}

impl AttributeView {
    /// The attribute's name, where its path is a single identifier.
    pub open spec fn ident(self) -> Option<Seq<char>> {
        if self.plain {
            Some(self.path)
        } else {
            None
        }
    }

    /// Whether the attribute's path is the single identifier `name`.
    pub open spec fn is_ident(self, name: Seq<char>) -> bool {
        self.plain && self.path == name
    }

    /// Whether this is a conditional-compilation guard.
    pub open spec fn is_cfg(self) -> bool {
        self.is_ident("cfg"@)
    }
}

impl Clone for Attribute {
    fn clone(&self) -> (copy: Self)
        ensures
            copy == *self,
    {
        Attribute {
            outer: self.outer,
            path: self.path.clone(),
            plain: self.plain,
            tokens: self.tokens.clone(),
            expression: copy_text(&self.expression),
        }
    }
}

impl Attribute {
    /// Whether the attribute's path is the single identifier `name`.
    pub fn is_ident(&self, name: &str) -> (same: bool)
        ensures
            same == self@.is_ident(name@),
    {
        self.plain && text_is(&self.path, name)
    }
}

/// A copy of a list of attributes.
pub fn copy_attributes(attrs: &Vec<Attribute>) -> (copy: Vec<Attribute>)
    ensures
        copy@ == attrs@,
{
    let mut copy: Vec<Attribute> = Vec::new();
    let mut i: usize = 0;
    while i < attrs.len()
        invariant
            i <= attrs.len(),
            copy@ == attrs@.take(i as int),
        decreases attrs.len() - i,
    {
        copy.push(attrs[i].clone());
        assert(copy@ == attrs@.take(i + 1)) by {
            assert(attrs@.take(i + 1) =~= attrs@.take(i as int).push(attrs@[i as int]));
        }
        i = i + 1;
    }
    assert(attrs@.take(attrs.len() as int) =~= attrs@);
    copy
}

/// The conditional-compilation guards among `attrs`, in order.
pub open spec fn guards(attrs: Seq<Attribute>) -> Seq<Attribute> {
    attrs.filter(|a: Attribute| a@.is_cfg())
}

/// The type of a parameter, as far as the contracts read it.
pub enum ParamType {
    /// `&'lifetime mut elem`, the lifetime without its quote.
    Reference { lifetime: Option<String>, mutable: bool, elem: String },
    /// Any other type, as written.
    Other { text: String },
}

impl Clone for ParamType {
    fn clone(&self) -> (copy: Self)
        ensures
            copy == *self,
    {
        match self {
            ParamType::Reference { lifetime, mutable, elem } => ParamType::Reference {
                lifetime: copy_text(lifetime),
                mutable: *mutable,
                elem: elem.clone(),
            },
            ParamType::Other { text } => ParamType::Other { text: text.clone() },
        }
    }
}

/// A parameter written as `attrs pat: ty`.
pub struct PatType {
    pub attrs: Vec<Attribute>,
    /// The pattern before the colon, as written.
    pub pat: String,
    pub ty: ParamType,
}

/// A parameter of the function.
pub enum FnArg {
    /// A `self` parameter, as written.
    Receiver { text: String },
    /// Any other parameter.
    Typed(PatType),
}

/// What the function is declared to return.
pub enum ReturnType {
    /// No return type is written.
    Default,
    /// `-> ()`
    Unit,
    /// `-> !`
    Never,
    /// Any other type, as written.
    Other { text: String },
}

/// An annotated function.
pub struct HandlerFn {
    pub attrs: Vec<Attribute>,
    /// The visibility, as written; empty where none is.
    pub vis: String,
    pub constness: bool,
    pub asyncness: bool,
    pub unsafety: bool,
    /// The ABI, as written after `extern`; an `extern` without a name is the
    /// empty text.
    pub abi: Option<String>,
    pub ident: String,
    /// The generic parameters between the angle brackets, as written; empty
    /// where there are none.
    pub generics: String,
    /// The predicates of the where-clause, as written.
    pub where_clause: Option<String>,
    pub inputs: Vec<FnArg>,
    pub variadic: bool,
    pub output: ReturnType,
    /// The body, braces included.
    pub block: String,
}

/// A token of the arguments of an attribute.
pub enum Token {
    /// An identifier or a keyword.
    Ident { name: String },
    /// One character of punctuation.
    Punct { mark: char },
    /// A literal, as written.
    Literal { text: String },
    /// A group of tokens between delimiters, as written.
    Group { text: String },
}

pub enum TokenView {
    Ident { name: Seq<char> },
    Punct { mark: char },
    Literal { text: Seq<char> },
    Group { text: Seq<char> },
}

impl View for Token {
    type V = TokenView;

    open spec fn view(&self) -> TokenView {
        match self {
            Token::Ident { name } => TokenView::Ident { name: name@ },
            Token::Punct { mark } => TokenView::Punct { mark: *mark },
            Token::Literal { text } => TokenView::Literal { text: text@ },
            Token::Group { text } => TokenView::Group { text: text@ },
        }
    }
}

impl TokenView {
    /// Whether the token is the word `word`.
    pub open spec fn is_word(self, word: Seq<char>) -> bool {
        self matches TokenView::Ident { name } && name == word
    }

    /// Whether the token is the punctuation character `mark`.
    pub open spec fn is_mark(self, mark: char) -> bool {
        self == (TokenView::Punct { mark })
    }
}

impl Token {
    /// Whether the token is the word `word`.
    pub fn is_word(&self, word: &str) -> (same: bool)
        ensures
            same == self@.is_word(word@),
    {
        match self {
            Token::Ident { name } => text_is(name, word),
            _ => false,
        }
    }

    /// Whether the token is the punctuation character `mark`.
    pub fn is_mark(&self, mark: char) -> (same: bool)
        ensures
            same == self@.is_mark(mark),
    {
        match self {
            Token::Punct { mark: found } => *found == mark,
            _ => false,
        }
    }
}

} // verus!
