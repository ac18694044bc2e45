//! Builder for transaction blocks: a BEGIN marker, arbitrary statements and
//! a COMMIT or CANCEL marker, joined by newlines.

use vstd::prelude::*;

use crate::query::QueryBuilder;
use crate::query::spec_query;
use crate::text::is_space_char;
use crate::text::join_strings;
use crate::text::join_with;
use crate::text::lemma_trim_start_last;
use crate::text::lemma_trim_start_push_nonspace;
use crate::text::trim_spec;
use crate::text::trim_string;

verus! {

/// Builder for a transaction script. `begin`, `commit` and `cancel` are
/// plain statement appenders: nothing enforces an order or that exactly one
/// closing marker is added — the caller decides.
#[derive(Debug)]
pub struct TransactionBuilder {
    statements: Vec<String>,
}

impl View for TransactionBuilder {
    type V = Seq<Seq<char>>;

    closed spec fn view(&self) -> Seq<Seq<char>> {
        self.statements.deep_view()
    }
}

/// The normalized form of one raw statement: trimmed, with a terminating
/// semicolon appended when the trimmed text does not already end in one.
pub open spec fn terminated(s: Seq<char>) -> Seq<char> {
    let t = trim_spec(s);
    if t.len() > 0 && t.last() == ';' {
        t
    } else {
        t.push(';')
    }
}

impl TransactionBuilder {
    /// Creates a new, empty transaction builder.
    pub fn new() -> (r: Self)
        ensures
            r@ == Seq::<Seq<char>>::empty(),
    {
        let r = TransactionBuilder { statements: Vec::new() };
        proof {
            assert(r@ =~= Seq::<Seq<char>>::empty());
        }
        r
    }

    /// Starts the transaction block with the literal `BEGIN TRANSACTION;`.
    pub fn begin(&mut self) -> (r: &mut Self)
        ensures
            (*r)@ == old(self)@.push("BEGIN TRANSACTION;"@),
            *final(self) == *final(r),
    {
        self.statements.push(String::from_str("BEGIN TRANSACTION;"));
        proof {
            assert(self@ =~= old(self)@.push("BEGIN TRANSACTION;"@));
        }
        self
    }

    /// Adds a raw statement: whitespace is trimmed from both ends and a
    /// semicolon is appended when the statement does not already end in one.
    pub fn add_statement(&mut self, stmt: &str) -> (r: &mut Self)
        ensures
            (*r)@ == old(self)@.push(terminated(stmt@)),
            *final(self) == *final(r),
    {
        let ghost prior = self@;
        let mut t = trim_string(stmt);
        let n = t.as_str().unicode_len();
        let ends_with_semi = if n == 0 {
            false
        } else {
            t.as_str().get_char(n - 1) == ';'
        };
        if !ends_with_semi {
            t.append(";");
            proof {
                reveal_strlit(";");
                assert(t@ =~= trim_spec(stmt@).push(';'));
            }
        }
        proof {
            assert(t@ == terminated(stmt@));
        }
        self.statements.push(t);
        proof {
            assert(self@ =~= prior.push(terminated(stmt@)));
        }
        self
    }

    /// Builds the query and adds it as a statement. Fails, and leaves the
    /// transaction unchanged, exactly when the query has no FROM table; the
    /// query's own error is handed through unchanged.
    pub fn add_query(&mut self, qb: &QueryBuilder) -> (r: Result<(), &'static str>)
        ensures
            qb@.from_table is Some ==> r is Ok && final(self)@ == old(self)@.push(
                terminated(spec_query(qb@)),
            ),
            qb@.from_table is None ==> (r matches Err(e) && e@
                == "The FROM clause is required."@) && *final(self) == *old(self),
    {
        let q = match qb.build() {
            Ok(q) => q,
            Err(e) => {
                return Err(e);
            },
        };
        self.add_statement(q.as_str());
        Ok(())
    }

    /// Builds the query, wraps it in parentheses, appends the suffix (e.g.
    /// `[0].count`) and adds the result as a statement. Fails exactly as
    /// [`Self::add_query`] does.
    pub fn add_query_with_suffix(&mut self, qb: &QueryBuilder, suffix: &str) -> (r: Result<
        (),
        &'static str,
    >)
        ensures
            qb@.from_table is Some ==> r is Ok && final(self)@ == old(self)@.push(
                terminated("("@ + spec_query(qb@) + ")"@ + suffix@),
            ),
            qb@.from_table is None ==> (r matches Err(e) && e@
                == "The FROM clause is required."@) && *final(self) == *old(self),
    {
        let q = match qb.build() {
            Ok(q) => q,
            Err(e) => {
                return Err(e);
            },
        };
        let mut s = String::from_str("(");
        s.append(q.as_str());
        s.append(")");
        s.append(suffix);
        self.add_statement(s.as_str());
        Ok(())
    }

    /// Adds an entire script verbatim, as one statement unit: it may contain
    /// its own semicolons and newlines, and nothing is normalized.
    pub fn add_script(&mut self, script: &str) -> (r: &mut Self)
        ensures
            (*r)@ == old(self)@.push(script@),
            *final(self) == *final(r),
    {
        self.statements.push(script.to_owned());
        proof {
            assert(self@ =~= old(self)@.push(script@));
        }
        self
    }

    /// Adds the literal `COMMIT TRANSACTION;` to finalize the transaction.
    pub fn commit(&mut self) -> (r: &mut Self)
        ensures
            (*r)@ == old(self)@.push("COMMIT TRANSACTION;"@),
            *final(self) == *final(r),
    {
        self.statements.push(String::from_str("COMMIT TRANSACTION;"));
        proof {
            assert(self@ =~= old(self)@.push("COMMIT TRANSACTION;"@));
        }
        self
    }

    /// Adds the literal `CANCEL TRANSACTION;` to roll the transaction back.
    pub fn cancel(&mut self) -> (r: &mut Self)
        ensures
            (*r)@ == old(self)@.push("CANCEL TRANSACTION;"@),
            *final(self) == *final(r),
    {
        self.statements.push(String::from_str("CANCEL TRANSACTION;"));
        proof {
            assert(self@ =~= old(self)@.push("CANCEL TRANSACTION;"@));
        }
        self
    }

    /// Renders the transaction: all statements joined by newlines. Never
    /// fails, and does not change the builder.
    pub fn build(&self) -> (r: String)
        ensures
            r@ == join_with(self@, "\n"@),
    {
        join_strings(&self.statements, "\n")
    }
}

/// Adding a statement is insensitive to one trailing semicolon: for a raw
/// statement with no trailing whitespace that does not already end in a
/// semicolon, the statement and its semicolon-appended form normalize to
/// the same entry.
pub proof fn lemma_statement_semicolon_idempotent(s: Seq<char>)
    requires
        s.len() == 0 || !is_space_char(s.last()),
        trim_spec(s).len() == 0 || trim_spec(s).last() != ';',
    ensures
        terminated(s.push(';')) == terminated(s),
{
    lemma_trim_start_push_nonspace(s, ';');
    lemma_trim_start_last(s);
    let ts = crate::text::trim_start_spec(s);
    if ts.len() > 0 {
        assert(!is_space_char(ts.last()));
        assert(trim_spec(s) == ts);
    } else {
        assert(trim_spec(s) =~= ts);
    }
    assert(trim_spec(s.push(';')) == ts.push(';'));
    assert(terminated(s.push(';')) == ts.push(';'));
    assert(terminated(s) == trim_spec(s).push(';'));
}

} // verus!
