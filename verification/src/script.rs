//! Builder for scripts composed of `LET` assignments and a final `RETURN`
//! object.

use vstd::prelude::*;

use crate::query::QueryBuilder;
use crate::query::spec_query;
use crate::text::join_strings;
use crate::text::join_with;
use crate::text::suffixed_concat;

verus! {

/// Builder for a script of `LET $name = (expr);` statements followed by one
/// `RETURN { key: value, ... }` object.
#[derive(Debug)]
pub struct ScriptBuilder {
    statements: Vec<String>,
    return_map: Option<Vec<(String, String)>>,
}

/// The state of a [`ScriptBuilder`], with every string as its character
/// sequence.
#[verifier::ext_equal]
pub struct ScriptView {
    pub statements: Seq<Seq<char>>,
    pub return_map: Option<Seq<(Seq<char>, Seq<char>)>>,
}

impl View for ScriptBuilder {
    type V = ScriptView;

    closed spec fn view(&self) -> ScriptView {
        ScriptView {
            statements: self.statements.deep_view(),
            return_map: self.return_map.deep_view(),
        }
    }
}

/// One binding statement: `LET $name = (expr)suffix;`.
pub open spec fn let_statement(name: Seq<char>, expr: Seq<char>, suffix: Seq<char>) -> Seq<char> {
    "LET $"@ + name + " = ("@ + expr + ")"@ + suffix + ";"@
}

/// One `key: value` entry of the return object.
pub open spec fn pair_entry(p: (Seq<char>, Seq<char>)) -> Seq<char> {
    p.0 + ": "@ + p.1
}

/// The entries of the return object, in insertion order.
pub open spec fn pair_entries(ps: Seq<(Seq<char>, Seq<char>)>) -> Seq<Seq<char>> {
    Seq::new(ps.len(), |i: int| pair_entry(ps[i]))
}

/// Whether the script has at least one return pair, so that it can render.
pub open spec fn has_return(v: ScriptView) -> bool {
    v.return_map matches Some(m) && m.len() > 0
}

/// The whole rendered script: each statement followed by a newline, then
/// the return object, with no trailing newline.
pub open spec fn spec_script(v: ScriptView) -> Seq<char>
    recommends
        has_return(v),
{
    suffixed_concat(v.statements, "\n"@) + "RETURN { "@ + join_with(
        pair_entries(v.return_map->0),
        ", "@,
    ) + " }"@
}

impl ScriptBuilder {
    /// Creates a new, empty script builder.
    pub fn new() -> (r: Self)
        ensures
            r@ == (ScriptView { statements: Seq::empty(), return_map: None }),
    {
        let r = ScriptBuilder { statements: Vec::new(), return_map: None };
        proof {
            assert(r@ =~= (ScriptView { statements: Seq::empty(), return_map: None }));
        }
        r
    }

    /// Adds a raw LET assignment with the expression in parentheses:
    /// `LET $name = (expr);`.
    pub fn let_raw(&mut self, name: &str, expr: &str) -> (r: &mut Self)
        ensures
            (*r)@ == (ScriptView {
                statements: old(self)@.statements.push(
                    let_statement(name@, expr@, Seq::empty()),
                ),
                ..old(self)@
            }),
            *final(self) == *final(r),
    {
        let ghost prior = self@;
        let mut s = String::from_str("LET $");
        s.append(name);
        s.append(" = (");
        s.append(expr);
        s.append(");");
        proof {
            reveal_strlit(");");
            reveal_strlit(")");
            reveal_strlit(";");
            assert(s@ =~= let_statement(name@, expr@, Seq::empty()));
        }
        self.statements.push(s);
        proof {
            assert(self@ =~= (ScriptView {
                statements: prior.statements.push(let_statement(name@, expr@, Seq::empty())),
                ..prior
            }));
        }
        self
    }

    /// Adds a LET assignment with a raw suffix appended outside the
    /// parentheses: `LET $name = (expr)suffix;`. Example suffix:
    /// `[0].count`.
    pub fn let_raw_with_suffix(&mut self, name: &str, expr: &str, suffix: &str) -> (r: &mut Self)
        ensures
            (*r)@ == (ScriptView {
                statements: old(self)@.statements.push(let_statement(name@, expr@, suffix@)),
                ..old(self)@
            }),
            *final(self) == *final(r),
    {
        let ghost prior = self@;
        let mut s = String::from_str("LET $");
        s.append(name);
        s.append(" = (");
        s.append(expr);
        s.append(")");
        s.append(suffix);
        s.append(";");
        proof {
            assert(s@ =~= let_statement(name@, expr@, suffix@));
        }
        self.statements.push(s);
        proof {
            assert(self@ =~= (ScriptView {
                statements: prior.statements.push(let_statement(name@, expr@, suffix@)),
                ..prior
            }));
        }
        self
    }

    /// Builds the query and adds it as a LET assignment. Fails, and leaves
    /// the script unchanged, exactly when the query has no FROM table; the
    /// query's own error is handed through unchanged.
    pub fn let_query(&mut self, name: &str, qb: &QueryBuilder) -> (r: Result<(), &'static str>)
        ensures
            qb@.from_table is Some ==> r is Ok && final(self)@ == (ScriptView {
                statements: old(self)@.statements.push(
                    let_statement(name@, spec_query(qb@), Seq::empty()),
                ),
                ..old(self)@
            }),
            qb@.from_table is None ==> (r matches Err(e) && e@
                == "The FROM clause is required."@) && *final(self) == *old(self),
    {
        let q = match qb.build() {
            Ok(q) => q,
            Err(e) => {
                return Err(e);
            },
        };
        self.let_raw(name, q.as_str());
        Ok(())
    }

    /// Like [`Self::let_query`], with a raw suffix appended outside the
    /// parenthesized query.
    pub fn let_query_with_suffix(
        &mut self,
        name: &str,
        qb: &QueryBuilder,
        suffix: &str,
    ) -> (r: Result<(), &'static str>)
        ensures
            qb@.from_table is Some ==> r is Ok && final(self)@ == (ScriptView {
                statements: old(self)@.statements.push(
                    let_statement(name@, spec_query(qb@), suffix@),
                ),
                ..old(self)@
            }),
            qb@.from_table is None ==> (r matches Err(e) && e@
                == "The FROM clause is required."@) && *final(self) == *old(self),
    {
        let q = match qb.build() {
            Ok(q) => q,
            Err(e) => {
                return Err(e);
            },
        };
        self.let_raw_with_suffix(name, q.as_str(), suffix);
        Ok(())
    }

    /// Stores the return mapping as ordered `(key, value)` pairs. Values are
    /// verbatim strings (e.g. `$product` or an expression).
    pub fn returning(&mut self, map: Vec<(&str, &str)>) -> (r: &mut Self)
        ensures
            (*r)@ == (ScriptView { return_map: Some(map.deep_view()), ..old(self)@ }),
            *final(self) == *final(r),
    {
        let ghost prior = self@;
        let mut pairs: Vec<(String, String)> = Vec::new();
        let mut i: usize = 0;
        while i < map.len()
            invariant
                i <= map@.len(),
                pairs@.len() == i,
                forall|x: int|
                    0 <= x < i ==> pairs@[x].0@ == map@[x].0@ && pairs@[x].1@ == map@[x].1@,
            decreases map@.len() - i,
        {
            let (k, v) = map[i];
            pairs.push((k.to_owned(), v.to_owned()));
            i += 1;
        }
        self.return_map = Some(pairs);
        proof {
            assert(self@.return_map->0 =~= map.deep_view());
            assert(self@ =~= (ScriptView { return_map: Some(map.deep_view()), ..prior }));
        }
        self
    }

    /// Renders the script.
    ///
    /// Fails with the missing-return error exactly when no return pair was
    /// stored (a stored empty list counts as none). On success the result
    /// is every statement followed by a newline, then the return object,
    /// with no trailing newline. The builder is not changed: the outcome
    /// is a pure function of the state.
    pub fn build(&self) -> (r: Result<String, &'static str>)
        ensures
            has_return(self@) ==> (r matches Ok(out) && out@ == spec_script(self@)),
            !has_return(self@) ==> (r matches Err(e) && e@ == "A return object is required."@),
    {
        let ghost v = self@;
        let ret = match &self.return_map {
            Some(m) => {
                if m.len() == 0 {
                    return Err("A return object is required.");
                }
                m
            },
            None => {
                return Err("A return object is required.");
            },
        };
        let mut out = String::new();
        let mut i: usize = 0;
        while i < self.statements.len()
            invariant
                i <= self.statements@.len(),
                v == self@,
                out@ == suffixed_concat(v.statements.take(i as int), "\n"@),
            decreases self.statements@.len() - i,
        {
            out.append(self.statements[i].as_str());
            out.append("\n");
            proof {
                let st = v.statements;
                assert(st.take(i as int + 1).drop_last() =~= st.take(i as int));
                assert(st.take(i as int + 1).last() == st[i as int]);
                assert(out@ =~= suffixed_concat(st.take(i as int + 1), "\n"@));
            }
            i += 1;
        }
        proof {
            assert(v.statements.take(v.statements.len() as int) =~= v.statements);
        }
        let mut entries: Vec<String> = Vec::new();
        let mut j: usize = 0;
        while j < ret.len()
            invariant
                j <= ret@.len(),
                v == self@,
                v.return_map == Some(ret.deep_view()),
                entries@.len() == j,
                forall|x: int| 0 <= x < j ==> entries@[x]@ == pair_entry(ret.deep_view()[x]),
            decreases ret@.len() - j,
        {
            let mut e = ret[j].0.clone();
            e.append(": ");
            e.append(ret[j].1.as_str());
            proof {
                assert(ret.deep_view()[j as int] == (ret@[j as int].0@, ret@[j as int].1@));
                assert(e@ =~= pair_entry(ret.deep_view()[j as int]));
            }
            entries.push(e);
            j += 1;
        }
        let joined = join_strings(&entries, ", ");
        proof {
            assert(entries.deep_view() =~= pair_entries(v.return_map->0));
        }
        out.append("RETURN { ");
        out.append(joined.as_str());
        out.append(" }");
        proof {
            assert(out@ =~= spec_script(v));
        }
        Ok(out)
    }
}

/// A script that renders at all ends in its return object's closing brace,
/// never in a newline: there is no trailing newline after the RETURN line.
pub proof fn lemma_script_return_tail(v: ScriptView)
    requires
        has_return(v),
    ensures
        spec_script(v).len() > 0,
        spec_script(v).last() == '}',
        spec_script(v).last() != '\n',
{
    reveal_strlit(" }");
    assert(spec_script(v).last() == " }"@[1]);
}

} // verus!
