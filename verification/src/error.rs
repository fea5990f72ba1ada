//! The error value of the backup system.
//!
//! An error is one of a closed set of kinds, each with its text. It can be
//! wrapped in a message or in the name of the function that failed, and
//! several errors can be gathered into one.

use vstd::prelude::*;

verus! {

/// The kinds of error, the two wrappers and the list.
#[derive(Debug)]
pub enum ErrorInternal {
    /// File system, temporary file or rename.
    Io(String),
    /// A path is not below the directory it was taken to be in.
    StripPrefixError(String),
    /// The database engine.
    Rusqlite(String),
    /// The compression stream.
    LiblzmaStream(String),
    /// The encryption stream.
    Encryption(String),
    /// A rule on the configuration is broken.
    ValidationError(String),
    /// The pool of workers could not be made.
    ThreadPoolBuildError(String),
    /// The configuration file could not be read as such.
    SerdeYml(String),
    /// One entry of a directory walk.
    WalkDir(String),
    /// The reader of a channel is gone.
    ChannelSendError(String),
    /// The mail server answered no.
    SmtpSendError(String),
    /// An error under a message.
    WithMsg { msg: String, error: Error },
    /// An error under the name of the function that failed.
    WithFnName { fn_name: String, error: Error },
    /// Several errors. Never empty.
    LotsOfError(Vec<Error>),
}

/// An error of the backup system.
#[derive(Debug)]
pub struct Error {
    pub inner: Box<ErrorInternal>,
}

/// What an error is about, whatever it is wrapped in.
#[derive(Clone, Copy, Debug, PartialEq, Eq, Structural)]
pub enum ErrorKind {
    /// File system, channel, temporary file or rename.
    Io,
    /// A path is not below the directory it was taken to be in.
    PathRelation,
    /// The database engine.
    Database,
    /// The compression stream.
    Compression,
    /// The encryption stream.
    Encryption,
    /// A rule on the configuration is broken.
    Validation,
    /// The pool of workers could not be made.
    PoolConstruction,
    /// The configuration file could not be read as such.
    ConfigParse,
    /// One entry of a directory walk.
    DirWalk,
    /// Telling someone failed.
    Notify,
    /// Several errors.
    Aggregated,
}

/// The text that `indent::indent_all_with` gives for a prefix and a text.
pub uninterp spec fn indented(prefix: Seq<char>, text: Seq<char>) -> Seq<char>;

/// `indent::indent_all_with`. Not proved: that the result is the text named
/// `indented`, which has the prefix before every line of `text` that is not
/// empty.
#[verifier::external_body]
fn indent_all_with(prefix: &str, text: &str) -> (out: String)
    ensures
        out@ == indented(prefix@, text@),
{
    indent::indent_all_with(prefix, text)
}

/// The texts of `parts` with `sep` between each two.
pub open spec fn joined(parts: Seq<Seq<char>>, sep: Seq<char>) -> Seq<char>
    decreases parts.len(),
{
    if parts.len() == 0 {
        Seq::empty()
    } else if parts.len() == 1 {
        parts[0]
    } else {
        joined(parts.drop_last(), sep) + sep + parts.last()
    }
}

/// The views of a list of strings.
pub open spec fn views(parts: Seq<String>) -> Seq<Seq<char>> {
    Seq::new(parts.len(), |i: int| parts[i]@)
}

/// `itertools::join`. Not proved: that the result holds the strings in order
/// with the separator between each two, and nothing for an empty list.
#[verifier::external_body]
fn join(parts: &Vec<String>, sep: &str) -> (out: String)
    ensures
        out@ == joined(views(parts@), sep@),
{
    itertools::join(parts, sep)
}

impl ErrorInternal {
    /// The text of a plain kind; `None` for the wrappers and the list.
    pub open spec fn plain_text(self) -> Option<Seq<char>> {
        match self {
            ErrorInternal::Io(t) => Some(t@),
            ErrorInternal::StripPrefixError(t) => Some(t@),
            ErrorInternal::Rusqlite(t) => Some(t@),
            ErrorInternal::LiblzmaStream(t) => Some(t@),
            ErrorInternal::Encryption(t) => Some(t@),
            ErrorInternal::ValidationError(t) => Some(t@),
            ErrorInternal::ThreadPoolBuildError(t) => Some(t@),
            ErrorInternal::SerdeYml(t) => Some(t@),
            ErrorInternal::WalkDir(t) => Some(t@),
            ErrorInternal::ChannelSendError(t) => Some(t@),
            ErrorInternal::SmtpSendError(t) => Some(t@),
            ErrorInternal::WithMsg { .. } => None,
            ErrorInternal::WithFnName { .. } => None,
            ErrorInternal::LotsOfError(_) => None,
        }
    }
}

impl Error {
    /// Whether the error is a list of errors.
    pub open spec fn is_list(self) -> bool {
        *self.inner is LotsOfError
    }

    /// The errors of a list; a single error is its own only part.
    pub open spec fn parts(self) -> Seq<Error> {
        match *self.inner {
            ErrorInternal::LotsOfError(v) => v@,
            _ => seq![self],
        }
    }

    /// Whether the error is `error` under the message `msg`.
    pub open spec fn is_with_msg(self, msg: Seq<char>, error: Error) -> bool {
        match *self.inner {
            ErrorInternal::WithMsg { msg: m, error: e } => m@ == msg && e == error,
            _ => false,
        }
    }

    /// Whether the error is `error` under the function name `fn_name`.
    pub open spec fn is_with_fn_name(self, fn_name: Seq<char>, error: Error) -> bool {
        match *self.inner {
            ErrorInternal::WithFnName { fn_name: f, error: e } => f@ == fn_name && e == error,
            _ => false,
        }
    }

    /// What the error is about. A message or a function name around an
    /// error does not change what it is about.
    pub open spec fn spec_kind(self) -> ErrorKind
        decreases self,
    {
        match *self.inner {
            ErrorInternal::Io(_) => ErrorKind::Io,
            ErrorInternal::ChannelSendError(_) => ErrorKind::Io,
            ErrorInternal::StripPrefixError(_) => ErrorKind::PathRelation,
            ErrorInternal::Rusqlite(_) => ErrorKind::Database,
            ErrorInternal::LiblzmaStream(_) => ErrorKind::Compression,
            ErrorInternal::Encryption(_) => ErrorKind::Encryption,
            ErrorInternal::ValidationError(_) => ErrorKind::Validation,
            ErrorInternal::ThreadPoolBuildError(_) => ErrorKind::PoolConstruction,
            ErrorInternal::SerdeYml(_) => ErrorKind::ConfigParse,
            ErrorInternal::WalkDir(_) => ErrorKind::DirWalk,
            ErrorInternal::SmtpSendError(_) => ErrorKind::Notify,
            ErrorInternal::WithMsg { msg, error } => error.spec_kind(),
            ErrorInternal::WithFnName { fn_name, error } => error.spec_kind(),
            ErrorInternal::LotsOfError(_) => ErrorKind::Aggregated,
        }
    }

    /// Whether no list in the error, at any depth, is empty.
    pub open spec fn well_formed(self) -> bool
        decreases self,
    {
        match *self.inner {
            ErrorInternal::WithMsg { msg, error } => error.well_formed(),
            ErrorInternal::WithFnName { fn_name, error } => error.well_formed(),
            ErrorInternal::LotsOfError(v) => v@.len() > 0 && Self::all_well_formed(v@),
            _ => true,
        }
    }

    /// Whether each of `errors` is well formed.
    pub open spec fn all_well_formed(errors: Seq<Error>) -> bool
        decreases errors,
    {
        if errors.len() == 0 {
            true
        } else {
            Self::all_well_formed(errors.drop_last()) && errors.last().well_formed()
        }
    }

    /// The text shown for the error: the text of a plain kind; a message, a
    /// colon and the indented text of what is inside; a function name,
    /// `() failed:` and the indented text of what is inside; the texts of a
    /// list with an empty line between each two.
    pub open spec fn text(self) -> Seq<char>
        decreases self,
    {
        match *self.inner {
            ErrorInternal::WithMsg { msg, error } => msg@ + ":\n"@ + indented("  "@, error.text()),
            ErrorInternal::WithFnName { fn_name, error } => fn_name@ + "() failed:\n"@ + indented(
                "  "@,
                error.text(),
            ),
            ErrorInternal::LotsOfError(v) => joined(Self::texts(v@), "\n\n"@),
            plain => plain.plain_text().unwrap(),
        }
    }

    /// The texts of `errors`.
    pub open spec fn texts(errors: Seq<Error>) -> Seq<Seq<char>>
        decreases errors,
    {
        if errors.len() == 0 {
            Seq::empty()
        } else {
            Self::texts(errors.drop_last()).push(errors.last().text())
        }
    }
}


impl Error {
    /// An error of the given kind, wrapper or list.
    pub fn new(inner: ErrorInternal) -> (res: Error)
        ensures
            *res.inner == inner,
    {
        Error { inner: Box::new(inner) }
    }

    /// A file system error with the given text.
    pub fn io(text: &str) -> (res: Error)
        ensures
            *res.inner is Io,
            res.inner.plain_text() == Some(text@),
            res.text() == text@,
            !res.is_list(),
            res.well_formed(),
    {
        Error::new(ErrorInternal::Io(text.to_owned()))
    }

    /// An error for a message that could not be handed to a channel.
    pub fn channel_send_error(text: &str) -> (res: Error)
        ensures
            *res.inner is ChannelSendError,
            res.inner.plain_text() == Some(text@),
            res.text() == text@,
            !res.is_list(),
            res.well_formed(),
    {
        Error::new(ErrorInternal::ChannelSendError(text.to_owned()))
    }

    /// An error for a rule on the configuration that is broken.
    pub fn validation_error(text: &str) -> (res: Error)
        ensures
            *res.inner is ValidationError,
            res.inner.plain_text() == Some(text@),
            res.text() == text@,
            !res.is_list(),
            res.well_formed(),
    {
        Error::new(ErrorInternal::ValidationError(text.to_owned()))
    }

    /// An error for a path that is not below its base.
    pub fn strip_prefix_error(text: &str) -> (res: Error)
        ensures
            *res.inner is StripPrefixError,
            res.inner.plain_text() == Some(text@),
            res.text() == text@,
            !res.is_list(),
            res.well_formed(),
    {
        Error::new(ErrorInternal::StripPrefixError(text.to_owned()))
    }

    /// An error for one entry of a directory walk.
    pub fn walk_dir(text: &str) -> (res: Error)
        ensures
            *res.inner is WalkDir,
            res.inner.plain_text() == Some(text@),
            res.text() == text@,
            !res.is_list(),
            res.well_formed(),
    {
        Error::new(ErrorInternal::WalkDir(text.to_owned()))
    }

    /// An error for a refusal of the mail server.
    pub fn smtp_send_error(text: &str) -> (res: Error)
        ensures
            *res.inner is SmtpSendError,
            res.inner.plain_text() == Some(text@),
            res.text() == text@,
            !res.is_list(),
            res.well_formed(),
    {
        Error::new(ErrorInternal::SmtpSendError(text.to_owned()))
    }

    /// `error` under the message `msg`.
    pub fn with_msg(msg: &str, error: Error) -> (res: Error)
        ensures
            res.is_with_msg(msg@, error),
            !res.is_list(),
            res.well_formed() == error.well_formed(),
            res.spec_kind() == error.spec_kind(),
    {
        Error::new(ErrorInternal::WithMsg { msg: msg.to_owned(), error })
    }

    /// `error` under the function name `fn_name`.
    pub fn with_fn_name(fn_name: &str, error: Error) -> (res: Error)
        ensures
            res.is_with_fn_name(fn_name@, error),
            !res.is_list(),
            res.well_formed() == error.well_formed(),
            res.spec_kind() == error.spec_kind(),
    {
        Error::new(ErrorInternal::WithFnName { fn_name: fn_name.to_owned(), error })
    }

    /// The list of `errors`, which may not be empty.
    pub fn lots_of_error(errors: Vec<Error>) -> (res: Error)
        requires
            errors@.len() > 0,
        ensures
            res.is_list(),
            res.parts() == errors@,
            res.well_formed() == Self::all_well_formed(errors@),
            res.spec_kind() == ErrorKind::Aggregated,
    {
        Error::new(ErrorInternal::LotsOfError(errors))
    }

    /// What the error is: its kind, wrapper or list.
    pub fn inner(&self) -> (res: &ErrorInternal)
        ensures
            *res == *self.inner,
    {
        &*self.inner
    }

    /// What the error is, by value.
    pub fn into_inner(self) -> (res: ErrorInternal)
        ensures
            res == *self.inner,
    {
        *self.inner
    }

    /// The errors of a list, in order; a single error alone.
    pub fn into_error_iter(self) -> (res: Vec<Error>)
        ensures
            res@ == self.parts(),
            self.well_formed() ==> res@.len() > 0 && Self::all_well_formed(res@),
    {
        let ghost me = self;
        match self.into_inner() {
            ErrorInternal::LotsOfError(v) => v,
            e => {
                let single: Error = Error::new(e);
                assert(single.inner == me.inner);
                assert(single == me);
                let mut res: Vec<Error> = Vec::new();
                res.push(single);
                assert(res@ =~= seq![me]);
                proof {
                    reveal_with_fuel(Error::all_well_formed, 2);
                    assert(res@.drop_last() =~= Seq::<Error>::empty());
                    assert(res@.last() == me);
                }
                res
            },
        }
    }

    /// One list of both errors: the errors of `self`, where it is a list,
    /// followed by those of `other`; else `self` and `other` as they are.
    pub fn chain(self, other: Error) -> (res: Error)
        ensures
            res.is_list(),
            res.parts() == if self.is_list() {
                self.parts() + other.parts()
            } else {
                seq![self, other]
            },
            other.parts().len() >= 1 ==> res.parts().len() >= 1,
            self.well_formed() && other.well_formed() ==> res.well_formed(),
    {
        let ghost me = self;
        let error_vec: Vec<Error> = match self.into_inner() {
            ErrorInternal::LotsOfError(mut v) => {
                let ghost first = v@;
                let mut more: Vec<Error> = other.into_error_iter();
                proof {
                    if me.well_formed() && other.well_formed() {
                        Self::lemma_all_well_formed_concat(first, more@);
                    }
                }
                v.append(&mut more);
                assert(me.well_formed() && other.well_formed() ==> v@.len() > 0
                    && Error::all_well_formed(v@));
                v
            },
            e => {
                let first: Error = Error::new(e);
                assert(first.inner == me.inner);
                assert(first == me);
                let mut v: Vec<Error> = Vec::new();
                v.push(first);
                v.push(other);
                assert(v@ =~= seq![me, other]);
                proof {
                    reveal_with_fuel(Error::all_well_formed, 3);
                    assert(v@.drop_last() =~= seq![me]);
                    assert(v@.drop_last().drop_last() =~= Seq::<Error>::empty());
                    assert(v@.last() == other);
                    assert(v@.drop_last().last() == me);
                    assert(me.well_formed() && other.well_formed() ==> Error::all_well_formed(v@));
                }
                v
            },
        };
        Error::new(ErrorInternal::LotsOfError(error_vec))
    }

    /// Two sequences of well formed errors make one.
    pub proof fn lemma_all_well_formed_concat(a: Seq<Error>, b: Seq<Error>)
        requires
            Self::all_well_formed(a),
            Self::all_well_formed(b),
        ensures
            Self::all_well_formed(a + b),
        decreases b.len(),
    {
        if b.len() == 0 {
            assert(a + b =~= a);
        } else {
            Self::lemma_all_well_formed_concat(a, b.drop_last());
            assert((a + b).drop_last() =~= a + b.drop_last());
            assert((a + b).last() == b.last());
        }
    }

    /// Errors are all well formed where each of them is.
    pub proof fn lemma_all_well_formed(errors: Seq<Error>)
        ensures
            Self::all_well_formed(errors) == (forall|i: int|
                0 <= i < errors.len() ==> (#[trigger] errors[i]).well_formed()),
        decreases errors.len(),
    {
        if errors.len() > 0 {
            let front = errors.drop_last();
            Self::lemma_all_well_formed(front);
            if Self::all_well_formed(errors) {
                assert forall|i: int| 0 <= i < errors.len() implies (#[trigger] errors[i]).well_formed() by {
                    if i < front.len() {
                        assert(front[i] == errors[i]);
                    }
                }
            }
            if forall|i: int| 0 <= i < errors.len() ==> (#[trigger] errors[i]).well_formed() {
                assert forall|i: int| 0 <= i < front.len() implies (#[trigger] front[i]).well_formed() by {
                    assert(front[i] == errors[i]);
                }
                assert(errors.last() == errors[errors.len() - 1]);
            }
        }
    }

    /// What the error is about, whatever it is wrapped in.
    pub fn kind(&self) -> (kind: ErrorKind)
        ensures
            kind == self.spec_kind(),
        decreases self,
    {
        match &*self.inner {
            ErrorInternal::Io(_) => ErrorKind::Io,
            ErrorInternal::ChannelSendError(_) => ErrorKind::Io,
            ErrorInternal::StripPrefixError(_) => ErrorKind::PathRelation,
            ErrorInternal::Rusqlite(_) => ErrorKind::Database,
            ErrorInternal::LiblzmaStream(_) => ErrorKind::Compression,
            ErrorInternal::Encryption(_) => ErrorKind::Encryption,
            ErrorInternal::ValidationError(_) => ErrorKind::Validation,
            ErrorInternal::ThreadPoolBuildError(_) => ErrorKind::PoolConstruction,
            ErrorInternal::SerdeYml(_) => ErrorKind::ConfigParse,
            ErrorInternal::WalkDir(_) => ErrorKind::DirWalk,
            ErrorInternal::SmtpSendError(_) => ErrorKind::Notify,
            ErrorInternal::WithMsg { msg, error } => error.kind(),
            ErrorInternal::WithFnName { fn_name, error } => error.kind(),
            ErrorInternal::LotsOfError(_) => ErrorKind::Aggregated,
        }
    }

    /// The text shown for the error.
    pub fn to_string(&self) -> (out: String)
        ensures
            out@ == self.text(),
        decreases self,
    {
        match &*self.inner {
            ErrorInternal::Io(t) => t.clone(),
            ErrorInternal::StripPrefixError(t) => t.clone(),
            ErrorInternal::Rusqlite(t) => t.clone(),
            ErrorInternal::LiblzmaStream(t) => t.clone(),
            ErrorInternal::Encryption(t) => t.clone(),
            ErrorInternal::ValidationError(t) => t.clone(),
            ErrorInternal::ThreadPoolBuildError(t) => t.clone(),
            ErrorInternal::SerdeYml(t) => t.clone(),
            ErrorInternal::WalkDir(t) => t.clone(),
            ErrorInternal::ChannelSendError(t) => t.clone(),
            ErrorInternal::SmtpSendError(t) => t.clone(),
            ErrorInternal::WithMsg { msg, error } => {
                let inside: String = error.to_string();
                let body: String = indent_all_with("  ", inside.as_str());
                let mut out: String = msg.clone();
                out.append(":\n");
                out.append(body.as_str());
                out
            },
            ErrorInternal::WithFnName { fn_name, error } => {
                let inside: String = error.to_string();
                let body: String = indent_all_with("  ", inside.as_str());
                let mut out: String = fn_name.clone();
                out.append("() failed:\n");
                out.append(body.as_str());
                out
            },
            ErrorInternal::LotsOfError(v) => {
                let mut texts: Vec<String> = Vec::new();
                let mut i: usize = 0;
                while i < v.len()
                    invariant
                        i <= v@.len(),
                        *self.inner == ErrorInternal::LotsOfError(*v),
                        views(texts@) == Self::texts(v@.subrange(0, i as int)),
                    decreases v.len() - i,
                {
                    let ghost before = views(texts@);
                    proof {
                        vstd::std_specs::vec::axiom_vec_index_decreases(*v, i as int);
                        assert(self.inner->LotsOfError_0 == *v);
                        assert(decreases_to!(*self.inner => self.inner->LotsOfError_0));
                        assert(decreases_to!(self => v[i as int]));
                    }
                    let text: String = v[i].to_string();
                    texts.push(text);
                    proof {
                        let upto = v@.subrange(0, i + 1);
                        assert(upto.drop_last() =~= v@.subrange(0, i as int));
                        assert(upto.last() == v@[i as int]);
                        assert(views(texts@) =~= before.push(v@[i as int].text()));
                    }
                    i += 1;
                }
                assert(v@.subrange(0, v@.len() as int) =~= v@);
                join(&texts, "\n\n")
            },
        }
    }
}

/// `Ok` for no errors, else the list of them as one error.
pub fn convert_error_vec(errors: Vec<Error>) -> (res: Result<(), Error>)
    ensures
        res.is_ok() <==> errors@.len() == 0,
        res matches Err(e) ==> e.is_list() && e.parts() == errors@ && (Error::all_well_formed(
            errors@,
        ) ==> e.well_formed()),
{
    if errors.is_empty() {
        Ok(())
    } else {
        Err(Error::lots_of_error(errors))
    }
}

/// Putting the name of the failing function around an error.
pub trait AddFunctionName: Sized {
    /// Whether `res` is `self` with the function name around its error.
    spec fn has_fn_name(self, fn_name: Seq<char>, res: Self) -> bool;

    /// `self` with the function name around its error.
    fn add_fn_name(self, fn_name: &str) -> (res: Self)
        ensures
            self.has_fn_name(fn_name@, res),
    ;
}

/// Putting a message around an error.
pub trait AddMsg: Sized {
    /// Whether `res` is `self` with the message around its error.
    spec fn has_msg(self, msg: Seq<char>, res: Self) -> bool;

    /// `self` with the message around its error.
    fn add_msg(self, msg: &str) -> (res: Self)
        ensures
            self.has_msg(msg@, res),
    ;
}

impl AddFunctionName for Error {
    open spec fn has_fn_name(self, fn_name: Seq<char>, res: Error) -> bool {
        res.is_with_fn_name(fn_name, self)
    }

    fn add_fn_name(self, fn_name: &str) -> (res: Error) {
        Error::with_fn_name(fn_name, self)
    }
}

impl AddMsg for Error {
    open spec fn has_msg(self, msg: Seq<char>, res: Error) -> bool {
        res.is_with_msg(msg, self)
    }

    fn add_msg(self, msg: &str) -> (res: Error) {
        Error::with_msg(msg, self)
    }
}

impl<R> AddFunctionName for Result<R, Error> {
    open spec fn has_fn_name(self, fn_name: Seq<char>, res: Result<R, Error>) -> bool {
        match self {
            Ok(v) => res == Ok::<R, Error>(v),
            Err(e) => res matches Err(r) && r.is_with_fn_name(fn_name, e),
        }
    }

    fn add_fn_name(self, fn_name: &str) -> (res: Result<R, Error>) {
        match self {
            Ok(v) => Ok(v),
            Err(e) => Err(Error::with_fn_name(fn_name, e)),
        }
    }
}

impl<R> AddMsg for Result<R, Error> {
    open spec fn has_msg(self, msg: Seq<char>, res: Result<R, Error>) -> bool {
        match self {
            Ok(v) => res == Ok::<R, Error>(v),
            Err(e) => res matches Err(r) && r.is_with_msg(msg, e),
        }
    }

    fn add_msg(self, msg: &str) -> (res: Result<R, Error>) {
        match self {
            Ok(v) => Ok(v),
            Err(e) => Err(Error::with_msg(msg, e)),
        }
    }
}

} // verus!
