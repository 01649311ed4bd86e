//! Reading the arguments of the four attributes: nothing for the entry
//! point, the safety marker for pre-init, a name and the marker for an
//! exception, a path for an interrupt.

use vstd::prelude::*;
use crate::catalog::ExceptionHandlerTarget;
use crate::diagnostic::{failure, plain_failure, Diagnostic, DiagnosticView, Site, Violation};
use crate::syntax::{views, Token, TokenView};

verus! {

/// `#[exception(Name)]`, or `#[exception(Name unsafe)]` for an exception
/// that is hazardous to handle.
pub struct ExceptionArgs {
    pub unsafe_token: bool,
    pub name: String,
    pub exception: ExceptionHandlerTarget,
}

impl ExceptionArgs {
    /// Whether the safety marker follows the name.
    pub open spec fn marked(tokens: Seq<TokenView>) -> bool {
        tokens.len() > 1 && tokens[1].is_word("unsafe"@)
    }

    /// What `parse` answers: the target that the first token names and
    /// whether the marker follows it. The first token must be a name, the
    /// name must denote a target, a hazardous target must be marked, and
    /// nothing may follow.
    pub open spec fn parsed(tokens: Seq<TokenView>) -> Result<
        (ExceptionHandlerTarget, bool),
        DiagnosticView,
    > {
        if tokens.len() == 0 {
            Err(plain_failure(Violation::ExpectedIdentifier, Site::Arguments))
        } else {
            match tokens[0] {
                TokenView::Ident { name } => match ExceptionHandlerTarget::parsed(name) {
                    Err(d) => Err(d),
                    Ok(target) => {
                        let marker = Self::marked(tokens);
                        let read: int = if marker {
                            2
                        } else {
                            1
                        };
                        if target.hazardous() && !marker {
                            Err(
                                DiagnosticView {
                                    violation: Violation::UnsafeToHandle,
                                    site: Site::ArgumentToken(0),
                                    subject: name,
                                },
                            )
                        } else if tokens.len() > read {
                            Err(
                                plain_failure(
                                    Violation::UnexpectedToken,
                                    Site::ArgumentToken(read as usize),
                                ),
                            )
                        } else {
                            Ok((target, marker))
                        }
                    },
                },
                _ => Err(plain_failure(Violation::ExpectedIdentifier, Site::ArgumentToken(0))),
            }
        }
    }

    /// Reads the arguments of the exception attribute: the exception's name
    /// and, after it, the safety marker or nothing.
    pub fn parse(tokens: &Vec<Token>) -> (result: Result<ExceptionArgs, Diagnostic>)
        ensures
            match Self::parsed(views(tokens@)) {
                Ok((target, marker)) => result matches Ok(args) && args.exception == target
                    && args.unsafe_token == marker && tokens@[0]@ == (TokenView::Ident {
                    name: args.name@,
                }),
                Err(d) => result matches Err(e) && e@ == d,
            },
    {
        if tokens.len() == 0 {
            return Err(Diagnostic::new(Violation::ExpectedIdentifier, Site::Arguments));
        }
        assert(views(tokens@)[0] == tokens@[0]@);
        let name = match &tokens[0] {
            Token::Ident { name } => name,
            _ => {
                return Err(Diagnostic::new(Violation::ExpectedIdentifier, Site::ArgumentToken(0)));
            },
        };
        let exception = match ExceptionHandlerTarget::parse(name.as_str()) {
            Ok(target) => target,
            Err(d) => {
                return Err(d);
            },
        };
        let unsafe_token = if tokens.len() > 1 {
            assert(views(tokens@)[1] == tokens@[1]@);
            tokens[1].is_word("unsafe")
        } else {
            false
        };
        if exception.is_unsafe_to_define() && !unsafe_token {
            return Err(
                Diagnostic::naming(Violation::UnsafeToHandle, Site::ArgumentToken(0), name.as_str()),
            );
        }
        let read: usize = if unsafe_token {
            2
        } else {
            1
        };
        if tokens.len() > read {
            return Err(Diagnostic::new(Violation::UnexpectedToken, Site::ArgumentToken(read)));
        }
        Ok(ExceptionArgs { unsafe_token, name: name.clone(), exception })
    }
}

/// `#[pre_init(unsafe)]`
pub struct PreInitArgs {
    pub unsafe_token: bool,
}

impl PreInitArgs {
    /// What `parse` objects to, if anything: the arguments must be the
    /// safety marker and nothing else.
    pub open spec fn failure(tokens: Seq<TokenView>) -> Option<DiagnosticView> {
        if tokens.len() == 0 || !tokens[0].is_word("unsafe"@) {
            Some(plain_failure(Violation::MissingSafetyMarker, Site::Arguments))
        } else if tokens.len() > 1 {
            Some(plain_failure(Violation::UnexpectedToken, Site::ArgumentToken(1)))
        } else {
            None
        }
    }

    /// Reads the arguments of the pre-init attribute.
    pub fn parse(tokens: &Vec<Token>) -> (result: Result<PreInitArgs, Diagnostic>)
        ensures
            failure(result) == Self::failure(views(tokens@)),
            result matches Ok(args) ==> args.unsafe_token,
    {
        if tokens.len() == 0 {
            return Err(Diagnostic::new(Violation::MissingSafetyMarker, Site::Arguments));
        }
        assert(views(tokens@)[0] == tokens@[0]@);
        if !tokens[0].is_word("unsafe") {
            return Err(Diagnostic::new(Violation::MissingSafetyMarker, Site::Arguments));
        }
        if tokens.len() > 1 {
            return Err(Diagnostic::new(Violation::UnexpectedToken, Site::ArgumentToken(1)));
        }
        Ok(PreInitArgs { unsafe_token: true })
    }
}

/// `#[interrupt(path::to::Interrupt::Variant)]`.
///
/// The path has at least two segments, so that its last segment is the
/// variant's own name and not a name it was imported under, and no segment
/// carries generic arguments.
pub struct InterruptArgs {
    /// Whether the path begins with `::`.
    pub leading_colon: bool,
    /// The segments of the path.
    pub segments: Vec<String>,
}

/// The views of the texts of a sequence, in order.
pub open spec fn texts(items: Seq<String>) -> Seq<Seq<char>> {
    items.map_values(|item: String| item@)
}

/// Whether the tokens number `at` and `at + 1` are the two colons of a path
/// separator.
pub open spec fn separator_at(tokens: Seq<TokenView>, at: int) -> bool {
    0 <= at && at + 1 < tokens.len() && tokens[at].is_mark(':') && tokens[at + 1].is_mark(':')
}

/// Whether the tokens number `at` and `at + 1` are an arrow.
pub open spec fn arrow_at(tokens: Seq<TokenView>, at: int) -> bool {
    0 <= at && at + 1 < tokens.len() && tokens[at].is_mark('-') && tokens[at + 1].is_mark('>')
}

/// Whether the token number `at` is a `>` that closes an angle bracket:
/// one that ends no arrow.
pub open spec fn closes_at(tokens: Seq<TokenView>, at: int) -> bool {
    0 <= at < tokens.len() && tokens[at].is_mark('>') && !arrow_at(tokens, at - 1)
}

/// Where the angle brackets end of which `depth` are open before token
/// number `at`: after the `>` that closes the last of them, or where the
/// tokens end.
pub open spec fn angle_end(tokens: Seq<TokenView>, at: int, depth: nat) -> int
    decreases tokens.len() - at,
{
    if at < 0 || at >= tokens.len() {
        tokens.len() as int
    } else if tokens[at].is_mark('<') {
        angle_end(tokens, at + 1, depth + 1)
    } else if closes_at(tokens, at) {
        if depth <= 1 {
            at + 1
        } else {
            angle_end(tokens, at + 1, (depth - 1) as nat)
        }
    } else {
        angle_end(tokens, at + 1, depth)
    }
}

/// Where the arguments of a segment end whose name is the token before
/// number `at`: `at` itself where the segment has none. Arguments are
/// angle brackets, with or without a separator before them, or a group in
/// parentheses; an arrow after the group takes the rest of the tokens.
pub open spec fn arguments_end(tokens: Seq<TokenView>, at: int) -> int {
    if at < 0 || at >= tokens.len() {
        at
    } else if tokens[at] is Group {
        if arrow_at(tokens, at + 1) {
            tokens.len() as int
        } else {
            at + 1
        }
    } else if tokens[at].is_mark('<') {
        angle_end(tokens, at, 0)
    } else if separator_at(tokens, at) && at + 2 < tokens.len() && tokens[at + 2].is_mark('<') {
        angle_end(tokens, at + 2, 0)
    } else {
        at
    }
}

/// Angle brackets end after where they begin, and within the tokens.
pub proof fn lemma_angle_end_bounds(tokens: Seq<TokenView>, at: int, depth: nat)
    requires
        0 <= at <= tokens.len(),
    ensures
        at <= angle_end(tokens, at, depth) <= tokens.len(),
        at < tokens.len() ==> at < angle_end(tokens, at, depth),
    decreases tokens.len() - at,
{
    if at < tokens.len() {
        if tokens[at].is_mark('<') {
            lemma_angle_end_bounds(tokens, at + 1, depth + 1);
        } else if closes_at(tokens, at) {
            if depth > 1 {
                lemma_angle_end_bounds(tokens, at + 1, (depth - 1) as nat);
            }
        } else {
            lemma_angle_end_bounds(tokens, at + 1, depth);
        }
    }
}

/// Arguments end no sooner than they begin, and within the tokens; they
/// end where they begin exactly when the segment has none.
pub proof fn lemma_arguments_end_bounds(tokens: Seq<TokenView>, at: int)
    requires
        0 <= at <= tokens.len(),
    ensures
        at <= arguments_end(tokens, at) <= tokens.len(),
{
    if at < tokens.len() {
        lemma_angle_end_bounds(tokens, at, 0);
        if at + 2 < tokens.len() {
            lemma_angle_end_bounds(tokens, at + 2, 0);
        }
    }
}

/// The segments of the path that begins at token number `at`, after the
/// segments `read`, and whether one of them has arguments, given that
/// `marked` tells it of those read: a name, its arguments if it has any,
/// then either the end, or a separator and the rest of the path.
pub open spec fn path_from(
    tokens: Seq<TokenView>,
    at: int,
    read: Seq<Seq<char>>,
    marked: bool,
) -> Result<(Seq<Seq<char>>, bool), DiagnosticView>
    decreases tokens.len() - at,
{
    if at < 0 || at >= tokens.len() {
        Err(plain_failure(Violation::ExpectedIdentifier, Site::Arguments))
    } else {
        match tokens[at] {
            TokenView::Ident { name } => {
                let end = arguments_end(tokens, at + 1);
                let marked = marked || end != at + 1;
                if end >= tokens.len() {
                    Ok((read.push(name), marked))
                } else if end <= at || !separator_at(tokens, end) {
                    Err(plain_failure(Violation::UnexpectedToken, Site::ArgumentToken(end as usize)))
                } else {
                    path_from(tokens, end + 2, read.push(name), marked)
                }
            },
            _ => Err(plain_failure(Violation::ExpectedIdentifier, Site::ArgumentToken(at as usize))),
        }
    }
}

/// The tokens that the path of these segments is written with: the
/// segments with a separator between each two, after a separator if the
/// path has a leading one.
pub open spec fn path_tokens(leading_colon: bool, segments: Seq<Seq<char>>) -> Seq<TokenView>
    decreases segments.len(),
{
    let colons = seq![TokenView::Punct { mark: ':' }, TokenView::Punct { mark: ':' }];
    if segments.len() == 0 {
        if leading_colon {
            colons
        } else {
            Seq::empty()
        }
    } else if segments.len() == 1 {
        (if leading_colon {
            colons
        } else {
            Seq::empty()
        }).push(TokenView::Ident { name: segments[0] })
    } else {
        path_tokens(leading_colon, segments.drop_last()) + colons + seq![
            TokenView::Ident { name: segments.last() },
        ]
    }
}

/// Where the name of segment number `i` stands, if segment number `from`
/// stands at `at`.
pub open spec fn name_at(at: int, from: int, i: int) -> int {
    at + 3 * (i - from)
}

/// Whether `tokens`, from token number `at` on, are the segments of
/// `segments` from number `from` on, with a separator between each two,
/// and nothing else.
pub open spec fn written_from(
    tokens: Seq<TokenView>,
    at: int,
    segments: Seq<Seq<char>>,
    from: int,
) -> bool {
    &&& 0 <= at
    &&& 0 <= from < segments.len()
    &&& tokens.len() == at + 3 * (segments.len() - from) - 2
    &&& forall|i: int|
        from <= i < segments.len() ==> tokens[#[trigger] name_at(at, from, i)] == (
        TokenView::Ident { name: segments[i] })
    &&& forall|i: int|
        from <= i < segments.len() - 1 ==> tokens[#[trigger] name_at(at, from, i) + 1].is_mark(
            ':',
        ) && tokens[name_at(at, from, i) + 2].is_mark(':')
}

/// The written form of a path has its names and separators where they
/// belong.
pub proof fn lemma_path_tokens_written(leading_colon: bool, segments: Seq<Seq<char>>)
    requires
        segments.len() >= 1,
    ensures
        written_from(
            path_tokens(leading_colon, segments),
            if leading_colon {
                2
            } else {
                0
            },
            segments,
            0,
        ),
        separator_at(path_tokens(leading_colon, segments), 0) == leading_colon,
    decreases segments.len(),
{
    let start: int = if leading_colon {
        2
    } else {
        0
    };
    let tokens = path_tokens(leading_colon, segments);
    if segments.len() == 1 {
        assert forall|i: int| 0 <= i < segments.len() implies tokens[#[trigger] name_at(
            start,
            0,
            i,
        )] == (TokenView::Ident { name: segments[i] }) by {}
    } else {
        let shorter = segments.drop_last();
        let before = path_tokens(leading_colon, shorter);
        lemma_path_tokens_written(leading_colon, shorter);
        assert forall|i: int| 0 <= i < segments.len() implies tokens[#[trigger] name_at(
            start,
            0,
            i,
        )] == (TokenView::Ident { name: segments[i] }) by {
            if i < shorter.len() {
                assert(before[name_at(start, 0, i)] == (TokenView::Ident { name: shorter[i] }));
            }
        }
        assert forall|i: int| 0 <= i < segments.len() - 1 implies tokens[#[trigger] name_at(
            start,
            0,
            i,
        ) + 1].is_mark(':') && tokens[name_at(start, 0, i) + 2].is_mark(':') by {
            if i < shorter.len() - 1 {
                assert(before[name_at(start, 0, i) + 1].is_mark(':'));
            }
        }
        assert(before[name_at(start, 0, 0)] == (TokenView::Ident { name: shorter[0] }));
    }
}

/// Tokens that are the written form of segments are read as these
/// segments, none of them with arguments.
pub proof fn lemma_written_is_read(
    tokens: Seq<TokenView>,
    at: int,
    segments: Seq<Seq<char>>,
    from: int,
    marked: bool,
)
    requires
        written_from(tokens, at, segments, from),
    ensures
        path_from(tokens, at, segments.take(from), marked) == Ok::<
            (Seq<Seq<char>>, bool),
            DiagnosticView,
        >((segments, marked)),
    decreases segments.len() - from,
{
    assert(tokens[name_at(at, from, from)] == (TokenView::Ident { name: segments[from] }));
    assert(segments.take(from).push(segments[from]) =~= segments.take(from + 1));
    if from + 1 == segments.len() {
        assert(segments.take(from + 1) =~= segments);
    } else {
        assert(tokens[name_at(at, from, from) + 1].is_mark(':'));
        assert(tokens[name_at(at, from, from + 1)] == (TokenView::Ident {
            name: segments[from + 1],
        }));
        assert(arguments_end(tokens, at + 1) == at + 1);
        assert(written_from(tokens, at + 3, segments, from + 1)) by {
            assert forall|i: int| from + 1 <= i < segments.len() implies tokens[#[trigger] name_at(
                at + 3,
                from + 1,
                i,
            )] == (TokenView::Ident { name: segments[i] }) by {
                assert(name_at(at + 3, from + 1, i) == name_at(at, from, i));
            }
            assert forall|i: int| from + 1 <= i < segments.len() - 1 implies tokens[
                #[trigger] name_at(at + 3, from + 1, i) + 1].is_mark(':') && tokens[name_at(
                at + 3,
                from + 1,
                i,
            ) + 2].is_mark(':') by {
                assert(name_at(at + 3, from + 1, i) == name_at(at, from, i));
            }
        }
        lemma_written_is_read(tokens, at + 3, segments, from + 1, marked);
    }
}

/// Once a segment has arguments, the path is read as one with arguments.
pub proof fn lemma_marked_stays(
    tokens: Seq<TokenView>,
    at: int,
    read: Seq<Seq<char>>,
)
    requires
        0 <= at,
        path_from(tokens, at, read, true) is Ok,
    ensures
        path_from(tokens, at, read, true)->Ok_0.1,
    decreases tokens.len() - at,
{
    let end = arguments_end(tokens, at + 1);
    if end < tokens.len() {
        lemma_marked_stays(tokens, end + 2, read.push(tokens[at]->Ident_name));
    }
}

/// Tokens that are read as segments without arguments are the written
/// form of these segments.
pub proof fn lemma_read_is_written(
    tokens: Seq<TokenView>,
    at: int,
    read: Seq<Seq<char>>,
    segments: Seq<Seq<char>>,
)
    requires
        0 <= at,
        path_from(tokens, at, read, false) == Ok::<(Seq<Seq<char>>, bool), DiagnosticView>(
            (segments, false),
        ),
    ensures
        segments.take(read.len() as int) == read,
        written_from(tokens, at, segments, read.len() as int),
    decreases tokens.len() - at,
{
    let from = read.len() as int;
    let name = tokens[at]->Ident_name;
    let end = arguments_end(tokens, at + 1);
    lemma_arguments_end_bounds(tokens, at + 1);
    assert(end == at + 1) by {
        if end != at + 1 && end < tokens.len() {
            lemma_marked_stays(tokens, end + 2, read.push(name));
        }
    }
    if at + 1 == tokens.len() {
        assert(segments.take(from) =~= read);
        assert forall|i: int| from <= i < segments.len() implies tokens[#[trigger] name_at(
            at,
            from,
            i,
        )] == (TokenView::Ident { name: segments[i] }) by {}
    } else {
        lemma_read_is_written(tokens, at + 3, read.push(name), segments);
        assert(segments.take(from) =~= segments.take(from + 1).take(from));
        assert(segments[from] == segments.take(from + 1)[from]);
        assert forall|i: int| from <= i < segments.len() implies tokens[#[trigger] name_at(
            at,
            from,
            i,
        )] == (TokenView::Ident { name: segments[i] }) by {
            if i > from {
                assert(name_at(at + 3, from + 1, i) == name_at(at, from, i));
            }
        }
        assert forall|i: int| from <= i < segments.len() - 1 implies tokens[#[trigger] name_at(
            at,
            from,
            i,
        ) + 1].is_mark(':') && tokens[name_at(at, from, i) + 2].is_mark(':') by {
            if i > from {
                assert(name_at(at + 3, from + 1, i) == name_at(at, from, i));
            }
        }
    }
}

/// A path of two or more plain segments is accepted, and read as it was
/// written.
pub proof fn lemma_plain_path_accepted(leading_colon: bool, segments: Seq<Seq<char>>)
    requires
        segments.len() >= 2,
    ensures
        InterruptArgs::parsed(path_tokens(leading_colon, segments)) == Ok::<
            (bool, Seq<Seq<char>>),
            DiagnosticView,
        >((leading_colon, segments)),
{
    let start: int = if leading_colon {
        2
    } else {
        0
    };
    lemma_path_tokens_written(leading_colon, segments);
    lemma_written_is_read(path_tokens(leading_colon, segments), start, segments, 0, false);
    assert(segments.take(0) =~= Seq::<Seq<char>>::empty());
}

/// Whatever is accepted is the written form of a path of two or more plain
/// segments: of the path that it is read as.
pub proof fn lemma_accepted_is_plain_path(tokens: Seq<TokenView>)
    requires
        InterruptArgs::parsed(tokens) is Ok,
    ensures
        ({
            let (leading_colon, segments) = InterruptArgs::parsed(tokens)->Ok_0;
            segments.len() >= 2 && tokens == path_tokens(leading_colon, segments)
        }),
{
    let (leading_colon, segments) = InterruptArgs::parsed(tokens)->Ok_0;
    let start: int = if leading_colon {
        2
    } else {
        0
    };
    lemma_read_is_written(tokens, start, Seq::empty(), segments);
    lemma_path_tokens_written(leading_colon, segments);
    let written = path_tokens(leading_colon, segments);
    assert forall|j: int| 0 <= j < tokens.len() implies tokens[j] == written[j] by {
        if j >= start {
            let i = (j - start) / 3;
            let r = (j - start) % 3;
            assert(j == name_at(start, 0, i) + r);
            assert(tokens[name_at(start, 0, i)] == (TokenView::Ident { name: segments[i] }));
            assert(written[name_at(start, 0, i)] == (TokenView::Ident { name: segments[i] }));
            if r != 0 {
                assert(tokens[name_at(start, 0, i) + 1].is_mark(':'));
                assert(written[name_at(start, 0, i) + 1].is_mark(':'));
            }
        }
    }
    assert(tokens =~= written);
}

impl InterruptArgs {
    /// Whether the path names a variant through its enumeration: it has two
    /// or more segments.
    pub open spec fn wf(self) -> bool {
        self.segments@.len() >= 2
    }

    /// What `parse` answers: whether the path has a leading separator, and
    /// its segments. The tokens must be a path; the path must have two
    /// segments at least; then none of them may have arguments. A path that
    /// is too short or has arguments is objected to as a whole.
    pub open spec fn parsed(tokens: Seq<TokenView>) -> Result<
        (bool, Seq<Seq<char>>),
        DiagnosticView,
    > {
        let leading_colon = separator_at(tokens, 0);
        let start: int = if leading_colon {
            2
        } else {
            0
        };
        match path_from(tokens, start, Seq::empty(), false) {
            Err(d) => Err(d),
            Ok((segments, marked)) => if segments.len() < 2 {
                Err(plain_failure(Violation::PathTooShort, Site::Arguments))
            } else if marked {
                Err(plain_failure(Violation::PathArguments, Site::Arguments))
            } else {
                Ok((leading_colon, segments))
            },
        }
    }

    /// Reads the arguments of the interrupt attribute: a path of two or
    /// more plain segments.
    pub fn parse(tokens: &Vec<Token>) -> (result: Result<InterruptArgs, Diagnostic>)
        ensures
            match Self::parsed(views(tokens@)) {
                Ok((leading_colon, segments)) => result matches Ok(args) && args.leading_colon
                    == leading_colon && texts(args.segments@) == segments && args.wf(),
                Err(d) => result matches Err(e) && e@ == d,
            },
    {
        let ghost all = views(tokens@);
        let total = tokens.len();
        assert forall|i: int| 0 <= i < total implies #[trigger] all[i] == tokens@[i]@ by {}
        let leading_colon = total >= 2 && tokens[0].is_mark(':') && tokens[1].is_mark(':');
        let mut at: usize = if leading_colon {
            2
        } else {
            0
        };
        let ghost start = at as int;
        let mut segments: Vec<String> = Vec::new();
        let mut marked = false;
        assert(texts(segments@) =~= Seq::<Seq<char>>::empty());
        loop
            invariant
                all == views(tokens@),
                total == tokens@.len(),
                forall|i: int| 0 <= i < total ==> #[trigger] all[i] == tokens@[i]@,
                at <= total,
                leading_colon == separator_at(all, 0),
                start == (if leading_colon { 2int } else { 0int }),
                path_from(all, start, Seq::empty(), false) == path_from(
                    all,
                    at as int,
                    texts(segments@),
                    marked,
                ),
            decreases total - at,
        {
            if at >= total {
                return Err(Diagnostic::new(Violation::ExpectedIdentifier, Site::Arguments));
            }
            let name = match &tokens[at] {
                Token::Ident { name } => name,
                _ => {
                    return Err(
                        Diagnostic::new(Violation::ExpectedIdentifier, Site::ArgumentToken(at)),
                    );
                },
            };
            let ghost before = texts(segments@);
            segments.push(name.clone());
            assert(texts(segments@) =~= before.push(name@));
            let end = arguments_end_of(tokens, at + 1);
            if end != at + 1 {
                marked = true;
            }
            let ended = end >= total || !(end + 1 < total && tokens[end].is_mark(':') && tokens[end
                + 1].is_mark(':'));
            if ended {
                if end < total {
                    return Err(
                        Diagnostic::new(Violation::UnexpectedToken, Site::ArgumentToken(end)),
                    );
                }
                if segments.len() < 2 {
                    return Err(Diagnostic::new(Violation::PathTooShort, Site::Arguments));
                }
                if marked {
                    return Err(Diagnostic::new(Violation::PathArguments, Site::Arguments));
                }
                return Ok(InterruptArgs { leading_colon, segments });
            }
            at = end + 2;
        }
    }
}

/// Where the angle brackets end of which `depth` are open before token
/// number `at`.
fn angle_end_of(tokens: &Vec<Token>, at: usize, depth: usize) -> (end: usize)
    requires
        at <= tokens@.len(),
        depth <= at,
    ensures
        end == angle_end(views(tokens@), at as int, depth as nat),
        at <= end <= tokens@.len(),
{
    let ghost all = views(tokens@);
    let total = tokens.len();
    let mut i: usize = at;
    let mut open: usize = depth;
    proof {
        lemma_angle_end_bounds(all, at as int, depth as nat);
    }
    while i < total
        invariant
            all == views(tokens@),
            total == tokens@.len(),
            at <= i <= total,
            open <= i,
            angle_end(all, at as int, depth as nat) == angle_end(all, i as int, open as nat),
        decreases total - i,
    {
        assert(all[i as int] == tokens@[i as int]@);
        if tokens[i].is_mark('<') {
            open = open + 1;
        } else if tokens[i].is_mark('>') && !(i > 0 && tokens[i - 1].is_mark('-')) {
            assert(closes_at(all, i as int)) by {
                if i > 0 {
                    assert(all[i - 1] == tokens@[i - 1]@);
                }
            }
            if open <= 1 {
                return i + 1;
            }
            open = open - 1;
        } else {
            assert(!closes_at(all, i as int)) by {
                if i > 0 {
                    assert(all[i - 1] == tokens@[i - 1]@);
                }
            }
        }
        i = i + 1;
    }
    total
}

/// Where the arguments end of the segment whose name is the token before
/// number `at`.
fn arguments_end_of(tokens: &Vec<Token>, at: usize) -> (end: usize)
    requires
        at <= tokens@.len(),
    ensures
        end == arguments_end(views(tokens@), at as int),
        at <= end <= tokens@.len(),
{
    let ghost all = views(tokens@);
    let total = tokens.len();
    assert forall|i: int| 0 <= i < total implies #[trigger] all[i] == tokens@[i]@ by {}
    if at >= total {
        return at;
    }
    if is_group(&tokens[at]) {
        if total - at > 2 && tokens[at + 1].is_mark('-') && tokens[at + 2].is_mark('>') {
            return total;
        }
        return at + 1;
    }
    if tokens[at].is_mark('<') {
        return angle_end_of(tokens, at, 0);
    }
    if total - at > 2 && tokens[at].is_mark(':') && tokens[at + 1].is_mark(':') && tokens[at
        + 2].is_mark('<') {
        return angle_end_of(tokens, at + 2, 0);
    }
    at
}

/// Whether the token is a group.
fn is_group(token: &Token) -> (group: bool)
    ensures
        group == (token@ is Group),
{
    match token {
        Token::Group { .. } => true,
        _ => false,
    }
}

} // verus!
