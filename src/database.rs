use vstd::prelude::*;

verus! {

/// How a backend numbers its native placeholders.
#[derive(Debug, Clone, Copy, PartialEq, Eq, Structural)]
pub enum ParamIndexing {
    /// The placeholder character alone; position is implied by order.
    Implicit,
    /// The placeholder character followed by the one-based position.
    OneIndexed,
}

/// The immutable constants that describe one backend.
pub trait Database {
    spec fn spec_placeholder_char() -> char;

    spec fn spec_param_indexing() -> ParamIndexing;

    spec fn spec_name() -> Seq<char>;

    /// The backend's display name.
    fn name() -> (r: &'static str)
        ensures
            r@ == Self::spec_name(),
    ;

    /// The character of the backend's native placeholders.
    fn placeholder_char() -> (r: char)
        ensures
            r == Self::spec_placeholder_char(),
    ;

    /// How the backend numbers its native placeholders.
    fn param_indexing() -> (r: ParamIndexing)
        ensures
            r == Self::spec_param_indexing(),
    ;

    spec fn spec_url_schemes() -> Seq<Seq<char>>;

    /// The connection-URL schemes that select this backend.
    fn url_schemes() -> (r: Vec<&'static str>)
        ensures
            r@.map_values(|u: &'static str| u@) == Self::spec_url_schemes(),
    ;
}

/// The runtime-selected backend: it declares no schemes and only dispatches.
#[derive(Debug)]
pub struct Any;

/// The protocol with server-typed parameters.
#[derive(Debug)]
pub struct Postgres;

/// The protocol with separate null markers.
#[derive(Debug)]
pub struct MySql;

/// The embedded backend.
#[derive(Debug)]
pub struct Sqlite;

impl Database for Any {
    open spec fn spec_url_schemes() -> Seq<Seq<char>> {
        Seq::empty()
    }

    open spec fn spec_placeholder_char() -> char {
        'X'
    }

    open spec fn spec_param_indexing() -> ParamIndexing {
        ParamIndexing::Implicit
    }

    open spec fn spec_name() -> Seq<char> {
        seq!['A', 'n', 'y']
    }

    fn name() -> (r: &'static str) {
        proof {
            reveal_strlit("Any");
        }
        assert("Any"@ =~= seq!['A', 'n', 'y']);
        "Any"
    }

    fn placeholder_char() -> (r: char) {
        'X'
    }

    fn param_indexing() -> (r: ParamIndexing) {
        ParamIndexing::Implicit
    }

    fn url_schemes() -> (r: Vec<&'static str>) {
        let v: Vec<&'static str> = Vec::new();
        assert(v@.map_values(|u: &'static str| u@) =~= Seq::<Seq<char>>::empty());
        v
    }
}

impl Database for Postgres {
    open spec fn spec_url_schemes() -> Seq<Seq<char>> {
        seq!["postgres"@, "postgresql"@]
    }

    open spec fn spec_placeholder_char() -> char {
        '$'
    }

    open spec fn spec_param_indexing() -> ParamIndexing {
        ParamIndexing::OneIndexed
    }

    open spec fn spec_name() -> Seq<char> {
        seq!['P', 'o', 's', 't', 'g', 'r', 'e', 'S', 'Q', 'L']
    }

    fn name() -> (r: &'static str) {
        proof {
            reveal_strlit("PostgreSQL");
        }
        assert("PostgreSQL"@ =~= seq!['P', 'o', 's', 't', 'g', 'r', 'e', 'S', 'Q', 'L']);
        "PostgreSQL"
    }

    fn placeholder_char() -> (r: char) {
        '$'
    }

    fn param_indexing() -> (r: ParamIndexing) {
        ParamIndexing::OneIndexed
    }

    fn url_schemes() -> (r: Vec<&'static str>) {
        let mut v: Vec<&'static str> = Vec::new();
        v.push("postgres");
        v.push("postgresql");
        assert(v@.map_values(|u: &'static str| u@) =~= seq!["postgres"@, "postgresql"@]);
        v
    }
}

impl Database for MySql {
    open spec fn spec_url_schemes() -> Seq<Seq<char>> {
        seq!["mysql"@, "mariadb"@]
    }

    open spec fn spec_placeholder_char() -> char {
        '?'
    }

    open spec fn spec_param_indexing() -> ParamIndexing {
        ParamIndexing::Implicit
    }

    open spec fn spec_name() -> Seq<char> {
        seq!['M', 'y', 'S', 'Q', 'L']
    }

    fn name() -> (r: &'static str) {
        proof {
            reveal_strlit("MySQL");
        }
        assert("MySQL"@ =~= seq!['M', 'y', 'S', 'Q', 'L']);
        "MySQL"
    }

    fn placeholder_char() -> (r: char) {
        '?'
    }

    fn param_indexing() -> (r: ParamIndexing) {
        ParamIndexing::Implicit
    }

    fn url_schemes() -> (r: Vec<&'static str>) {
        let mut v: Vec<&'static str> = Vec::new();
        v.push("mysql");
        v.push("mariadb");
        assert(v@.map_values(|u: &'static str| u@) =~= seq!["mysql"@, "mariadb"@]);
        v
    }
}

impl Database for Sqlite {
    open spec fn spec_url_schemes() -> Seq<Seq<char>> {
        seq!["sqlite"@]
    }

    open spec fn spec_placeholder_char() -> char {
        '?'
    }

    open spec fn spec_param_indexing() -> ParamIndexing {
        ParamIndexing::Implicit
    }

    open spec fn spec_name() -> Seq<char> {
        seq!['S', 'Q', 'L', 'i', 't', 'e']
    }

    fn name() -> (r: &'static str) {
        proof {
            reveal_strlit("SQLite");
        }
        assert("SQLite"@ =~= seq!['S', 'Q', 'L', 'i', 't', 'e']);
        "SQLite"
    }

    fn placeholder_char() -> (r: char) {
        '?'
    }

    fn param_indexing() -> (r: ParamIndexing) {
        ParamIndexing::Implicit
    }

    fn url_schemes() -> (r: Vec<&'static str>) {
        let mut v: Vec<&'static str> = Vec::new();
        v.push("sqlite");
        assert(v@.map_values(|u: &'static str| u@) =~= seq!["sqlite"@]);
        v
    }
}

/// The concrete backends that a connection URL can select.
#[derive(Debug, Clone, Copy, PartialEq, Eq, Structural)]
pub enum BackendKind {
    Postgres,
    MySql,
    Sqlite,
}

/// The scheme of a URL: the text before its first `:`, if it has one.
pub open spec fn scheme_of(url: Seq<char>) -> Option<Seq<char>> {
    if exists|i: int| 0 <= i < url.len() && url[i] == ':' {
        let i = choose|i: int| 0 <= i < url.len() && url[i] == ':' && forall|j: int| 0 <= j < i ==> url[j] != ':';
        Some(url.subrange(0, i))
    } else {
        None
    }
}

/// The backend whose schemes include `scheme`.
pub open spec fn backend_of_scheme(scheme: Seq<char>) -> Option<BackendKind> {
    if scheme == seq!['p', 'o', 's', 't', 'g', 'r', 'e', 's'] || scheme == seq!['p', 'o', 's', 't', 'g', 'r', 'e', 's', 'q', 'l'] {
        Some(BackendKind::Postgres)
    } else if scheme == seq!['m', 'y', 's', 'q', 'l'] || scheme == seq!['m', 'a', 'r', 'i', 'a', 'd', 'b'] {
        Some(BackendKind::MySql)
    } else if scheme == seq!['s', 'q', 'l', 'i', 't', 'e'] {
        Some(BackendKind::Sqlite)
    } else {
        None
    }
}

fn chars_equal(a: &[char], b: &str) -> (r: bool)
    ensures
        r == (a@ == b@),
{
    let bc = crate::text::chars_of(b);
    if a.len() != bc.len() {
        return false;
    }
    let mut i: usize = 0;
    while i < a.len()
        invariant
            i <= a@.len(),
            a@.len() == bc@.len(),
            bc@ == b@,
            forall|k: int| 0 <= k < i ==> a@[k] == bc@[k],
        decreases a@.len() - i,
    {
        if a[i] != bc[i] {
            return false;
        }
        i = i + 1;
    }
    assert(a@ =~= bc@);
    true
}

/// Selects the backend by the scheme of a connection URL.
pub fn backend_for_url(url: &str) -> (r: Option<BackendKind>)
    ensures
        r == (match scheme_of(url@) {
            Some(s) => backend_of_scheme(s),
            None => None,
        }),
{
    let cs = crate::text::chars_of(url);
    let mut i: usize = 0;
    while i < cs.len() && cs[i] != ':'
        invariant
            i <= cs@.len(),
            cs@ == url@,
            forall|j: int| 0 <= j < i ==> cs@[j] != ':',
        decreases cs@.len() - i,
    {
        i = i + 1;
    }
    if i == cs.len() {
        return None;
    }
    proof {
        let s = url@;
        assert(s[i as int] == ':');
        let c = choose|k: int| 0 <= k < s.len() && s[k] == ':' && forall|j: int| 0 <= j < k ==> s[j] != ':';
        assert(c == i) by {
            if c < i {
                assert(s[c] != ':');
            } else if c > i {
                assert(s[i as int] != ':');
            }
        }
    }
    let scheme = cs.as_slice().split_at(i).0;
    assert(scheme@ =~= url@.subrange(0, i as int));
    proof {
        reveal_strlit("postgres");
        reveal_strlit("postgresql");
        reveal_strlit("mysql");
        reveal_strlit("mariadb");
        reveal_strlit("sqlite");
        assert("postgres"@ =~= seq!['p', 'o', 's', 't', 'g', 'r', 'e', 's']);
        assert("postgresql"@ =~= seq!['p', 'o', 's', 't', 'g', 'r', 'e', 's', 'q', 'l']);
        assert("mysql"@ =~= seq!['m', 'y', 's', 'q', 'l']);
        assert("mariadb"@ =~= seq!['m', 'a', 'r', 'i', 'a', 'd', 'b']);
        assert("sqlite"@ =~= seq!['s', 'q', 'l', 'i', 't', 'e']);
    }
    if chars_equal(scheme, "postgres") || chars_equal(scheme, "postgresql") {
        Some(BackendKind::Postgres)
    } else if chars_equal(scheme, "mysql") || chars_equal(scheme, "mariadb") {
        Some(BackendKind::MySql)
    } else if chars_equal(scheme, "sqlite") {
        Some(BackendKind::Sqlite)
    } else {
        None
    }
}

} // verus!
