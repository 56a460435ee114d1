//! What can go wrong while a router is built.

use vstd::prelude::*;
use vstd::string::StringExecFns;

verus! {

/// Two registrations that cannot both stand.
#[derive(Debug, Clone, PartialEq, Eq)]
pub enum Conflict {
    /// Two literal routes with the same method and the same normal path.
    Path(String),
    /// One pattern that names the same variable twice.
    Variable { path: String, var_name: String },
}

/// A failure of the build step.
#[derive(Debug, Clone, PartialEq, Eq)]
pub enum RouterError {
    Conflict(Conflict),
    /// A variable segment of the given path has no name.
    MissingVariable(String),
}

/// A [`Conflict`] over character sequences.
pub enum ConflictView {
    Path(Seq<char>),
    Variable { path: Seq<char>, var_name: Seq<char> },
}

/// A [`RouterError`] over character sequences.
pub enum RouterErrorView {
    Conflict(ConflictView),
    MissingVariable(Seq<char>),
}

impl View for Conflict {
    type V = ConflictView;

    open spec fn view(&self) -> ConflictView {
        match *self {
            Conflict::Path(p) => ConflictView::Path(p@),
            Conflict::Variable { path, var_name } => ConflictView::Variable {
                path: path@,
                var_name: var_name@,
            },
        }
    }
}

impl View for RouterError {
    type V = RouterErrorView;

    open spec fn view(&self) -> RouterErrorView {
        match *self {
            RouterError::Conflict(c) => RouterErrorView::Conflict(c@),
            RouterError::MissingVariable(p) => RouterErrorView::MissingVariable(p@),
        }
    }
}

/// What a conflict says of itself.
pub open spec fn conflict_message(c: ConflictView) -> Seq<char> {
    match c {
        ConflictView::Path(path) => "conflict path: `"@ + path + "`"@,
        ConflictView::Variable { path, var_name } => "conflict variable `"@ + var_name
            + "`: in `"@ + path + "`"@,
    }
}

/// What a failure of the build says of itself.
pub open spec fn failure_message(e: RouterErrorView) -> Seq<char> {
    match e {
        RouterErrorView::Conflict(c) => "Conflict! "@ + conflict_message(c),
        RouterErrorView::MissingVariable(path) => "missing variable on path "@ + path,
    }
}

impl Conflict {
    /// The conflict in words.
    pub fn message(&self) -> (m: String)
        ensures
            m@ == conflict_message(self@),
    {
        match self {
            Conflict::Path(path) => {
                let mut m = String::from_str("conflict path: `");
                m.append(path.as_str());
                m.append("`");
                m
            },
            Conflict::Variable { path, var_name } => {
                let mut m = String::from_str("conflict variable `");
                m.append(var_name.as_str());
                m.append("`: in `");
                m.append(path.as_str());
                m.append("`");
                m
            },
        }
    }
}

impl RouterError {
    /// The failure in words.
    pub fn message(&self) -> (m: String)
        ensures
            m@ == failure_message(self@),
    {
        match self {
            RouterError::Conflict(c) => {
                let mut m = String::from_str("Conflict! ");
                let inner = c.message();
                m.append(inner.as_str());
                m
            },
            RouterError::MissingVariable(path) => {
                let mut m = String::from_str("missing variable on path ");
                m.append(path.as_str());
                m
            },
        }
    }
}

} // verus!
