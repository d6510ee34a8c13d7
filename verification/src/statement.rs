//! The statements that the build subsystem runs against the store, in the
//! dialect of the store at hand.

use crate::text::{decimal, push_decimal};
use vstd::prelude::*;
use vstd::string::*;

verus! {

/// Which kind of store the statements are for.
#[derive(Clone, Copy, Debug, PartialEq, Eq, Structural)]
pub enum Dialect {
    /// A store in a single file: parameters are written `?1`, `?2`, and so on.
    Sqlite,
    /// A store behind a server: parameters are written `$1`, `$2`, and so on.
    Postgres,
}

/// What a statement does.
#[derive(Clone, Copy, Debug, PartialEq, Eq, Structural)]
pub enum Statement {
    /// Reads the whole row of one build. Parameter: the build.
    GetBuild,
    /// Counts the children of a build. Parameter: the build.
    ChildrenCount,
    /// Tells whether a build is finished and has no child at or behind a
    /// position. Parameters: the build, the position.
    ChildrenEnd,
    /// Reads children of a build in the order of their positions.
    /// Parameters: the build, how many at most, from which position.
    ChildrenPage,
    /// Adds a child behind the children of a build, unless it is one of
    /// them already. Parameters: the build, the child.
    AddChild,
}

/// What stands before the number of a parameter.
pub open spec fn mark(dialect: Dialect) -> Seq<char> {
    match dialect {
        Dialect::Sqlite => "?"@,
        Dialect::Postgres => "$"@,
    }
}

/// How parameter `index` is written.
pub open spec fn placeholder_text(dialect: Dialect, index: u64) -> Seq<char> {
    mark(dialect) + decimal(index as nat)
}

/// The text of a statement.
pub open spec fn statement_text(dialect: Dialect, statement: Statement) -> Seq<char> {
    let p = mark(dialect);
    match statement {
        Statement::GetBuild =>
            "select id, complete, count, host, log, outcome, retry, status, target, weight, created_at, queued_at, started_at, finished_at\nfrom builds\nwhere id = "@
                + p + "1;\n"@,
        Statement::ChildrenCount => "select count(*)\nfrom build_children\nwhere build = "@ + p
            + "1;\n"@,
        Statement::ChildrenEnd => "select (\n\tselect status = 'finished'\n\tfrom builds\n\twhere id = "@
            + p + "1\n) and (\n\tselect "@ + p + "2 >= count(*)\n\tfrom build_children\n\twhere build = "@
            + p + "1\n);\n"@,
        Statement::ChildrenPage => "select child\nfrom build_children\nwhere build = "@ + p
            + "1\norder by position\nlimit "@ + p + "2\noffset "@ + p + "3\n"@,
        Statement::AddChild => "insert into build_children (build, position, child)\nvalues ("@ + p
            + "1, (select coalesce(max(position) + 1, 0) from build_children where build = "@ + p
            + "1), "@ + p + "2)\non conflict (build, child) do nothing;\n"@,
    }
}

impl Dialect {
    /// What stands before the number of a parameter.
    pub fn mark(&self) -> (r: &'static str)
        ensures
            r@ == mark(*self),
    {
        match self {
            Dialect::Sqlite => "?",
            Dialect::Postgres => "$",
        }
    }

    /// How parameter `index` is written.
    pub fn placeholder(&self, index: u64) -> (s: String)
        ensures
            s@ == placeholder_text(*self, index),
    {
        let mut s: String = self.mark().to_owned();
        push_decimal(&mut s, index);
        s
    }

    /// The text of a statement.
    pub fn statement(&self, statement: Statement) -> (s: String)
        ensures
            s@ == statement_text(*self, statement),
    {
        let p: &str = self.mark();
        match statement {
            Statement::GetBuild => {
                let mut s: String =
                    "select id, complete, count, host, log, outcome, retry, status, target, weight, created_at, queued_at, started_at, finished_at\nfrom builds\nwhere id = ".to_owned();
                s.append(p);
                s.append("1;\n");
                s
            },
            Statement::ChildrenCount => {
                let mut s: String = "select count(*)\nfrom build_children\nwhere build = ".to_owned();
                s.append(p);
                s.append("1;\n");
                s
            },
            Statement::ChildrenEnd => {
                let mut s: String =
                    "select (\n\tselect status = 'finished'\n\tfrom builds\n\twhere id = ".to_owned();
                s.append(p);
                s.append("1\n) and (\n\tselect ");
                s.append(p);
                s.append("2 >= count(*)\n\tfrom build_children\n\twhere build = ");
                s.append(p);
                s.append("1\n);\n");
                s
            },
            Statement::ChildrenPage => {
                let mut s: String = "select child\nfrom build_children\nwhere build = ".to_owned();
                s.append(p);
                s.append("1\norder by position\nlimit ");
                s.append(p);
                s.append("2\noffset ");
                s.append(p);
                s.append("3\n");
                s
            },
            Statement::AddChild => {
                let mut s: String =
                    "insert into build_children (build, position, child)\nvalues (".to_owned();
                s.append(p);
                s.append(
                    "1, (select coalesce(max(position) + 1, 0) from build_children where build = ",
                );
                s.append(p);
                s.append("1), ");
                s.append(p);
                s.append("2)\non conflict (build, child) do nothing;\n");
                s
            },
        }
    }
}

} // verus!
