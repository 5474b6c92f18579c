//! The database dialects the core distinguishes, with their identifier
//! quoting rules.

use vstd::prelude::*;
use vstd::string::StringExecFns;

verus! {

#[derive(Clone, Copy, PartialEq, Eq, Structural, Debug)]
pub enum DbType {
    Mysql,
    Pg,
    StarRocks,
    Doris,
    Redis,
}

/// The quoting pair a dialect wraps identifiers in, if it has one.
pub open spec fn escape_pair_of(db_type: DbType) -> Option<(char, char)> {
    match db_type {
        DbType::Mysql => Some(('`', '`')),
        DbType::Pg => Some(('"', '"')),
        _ => None,
    }
}

/// The quoting pairs of a dialect, as the tokenizer receives them.
pub open spec fn escape_pairs_of(db_type: DbType) -> Seq<(char, char)> {
    match escape_pair_of(db_type) {
        Some(pair) => seq![pair],
        None => Seq::<(char, char)>::empty(),
    }
}

/// An identifier as the dialect quotes it: wrapped in the dialect's pair,
/// or unchanged for dialects without one.
pub open spec fn quoted_identifier(id: Seq<char>, db_type: DbType) -> Seq<char> {
    match escape_pair_of(db_type) {
        Some(pair) => seq![pair.0] + id + seq![pair.1],
        None => id,
    }
}

impl DbType {
    pub fn name(&self) -> (r: String)
        ensures
            r@ == self.name_spec(),
    {
        match self {
            DbType::Mysql => String::from_str("mysql"),
            DbType::Pg => String::from_str("pg"),
            DbType::StarRocks => String::from_str("starrocks"),
            DbType::Doris => String::from_str("doris"),
            DbType::Redis => String::from_str("redis"),
        }
    }

    pub open spec fn name_spec(&self) -> Seq<char> {
        match self {
            DbType::Mysql => "mysql"@,
            DbType::Pg => "pg"@,
            DbType::StarRocks => "starrocks"@,
            DbType::Doris => "doris"@,
            DbType::Redis => "redis"@,
        }
    }

    /// The quoting pairs used when tokenizing configuration for this dialect.
    pub fn get_escape_pairs(&self) -> (r: Vec<(char, char)>)
        ensures
            r@ == escape_pairs_of(*self),
    {
        let mut r: Vec<(char, char)> = Vec::new();
        match self {
            DbType::Mysql => {
                r.push(('`', '`'));
            }
            DbType::Pg => {
                r.push(('"', '"'));
            }
            _ => {}
        }
        proof {
            match escape_pair_of(*self) {
                Some(pair) => {
                    assert(r@ =~= seq![pair]);
                }
                None => {
                    assert(r@ =~= Seq::<(char, char)>::empty());
                }
            }
        }
        r
    }
}

/// An identifier escaped for the dialect.
pub fn escape_identifier_for(id: &str, db_type: &DbType) -> (r: String)
    ensures
        r@ == quoted_identifier(id@, *db_type),
{
    match db_type {
        DbType::Mysql => {
            let mut s = String::from_str("`");
            s.append(id);
            s.append("`");
            proof {
                reveal_strlit("`");
                assert(s@ =~= quoted_identifier(id@, *db_type));
            }
            s
        }
        DbType::Pg => {
            let mut s = String::from_str("\"");
            s.append(id);
            s.append("\"");
            proof {
                reveal_strlit("\"");
                assert(s@ =~= quoted_identifier(id@, *db_type));
            }
            s
        }
        _ => id.to_owned(),
    }
}

} // verus!
