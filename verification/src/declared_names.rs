//! The declared-names tracker: a stack-structured record of the lexically
//! declared (`let`/`const`) and variable-declared (`var`) names seen so far,
//! used by the parser to reject illegal redeclarations.
//!
//! Lexical names live only in their own level; `var` names survive a level and
//! are merged outward when the level is left.

use vstd::prelude::*;
use vstd::string::StringExecFns;
use crate::error::ParseError;
use crate::position::Position;

verus! {

/// One recorded declaration: a name and the position where it was declared.
#[derive(Clone, Debug)]
pub struct NameEntry {
    /// The declared name.
    pub name: String,
    /// Where the declaration appears in the source.
    pub pos: Position,
}

/// The mapping that an association list of entries denotes: each name maps to
/// the position of its latest entry.
pub open spec fn names_map(s: Seq<NameEntry>) -> Map<Seq<char>, Position>
    decreases s.len(),
{
    if s.len() == 0 {
        Map::empty()
    } else {
        names_map(s.drop_last()).insert(s.last().name@, s.last().pos)
    }
}

/// No two entries of the list carry the same name.
pub open spec fn distinct_names(s: Seq<NameEntry>) -> bool {
    forall|i: int, j: int| 0 <= i < j < s.len() ==> s[i].name@ != s[j].name@
}

/// One saved scope level: the lexical and variable names of an enclosing scope.
pub struct ScopeModel {
    /// Lexically declared names of the level.
    pub lex: Map<Seq<char>, Position>,
    /// Variable-declared names of the level.
    pub var: Map<Seq<char>, Position>,
}

/// Mathematical image of a [`DeclaredNames`]: the current level's two name
/// maps plus the saved levels of the enclosing scopes, outermost first.
pub struct NamesModel {
    /// Lexically declared names of the current level.
    pub lex: Map<Seq<char>, Position>,
    /// Variable-declared names of the current level.
    pub var: Map<Seq<char>, Position>,
    /// Saved levels of the enclosing scopes, outermost first.
    pub stack: Seq<ScopeModel>,
}

/// True when `name` is lexically declared at the current level or at any
/// enclosing stacked level.
pub open spec fn any_lex_declared(m: NamesModel, name: Seq<char>) -> bool {
    m.lex.contains_key(name) || exists|i: int|
        0 <= i < m.stack.len() && m.stack[i].lex.contains_key(name)
}

/// Whether recording `name` as a `var` succeeds: it must not collide with an
/// active lexical declaration at any level.
pub open spec fn var_insert_ok(m: NamesModel, name: Seq<char>) -> bool {
    !any_lex_declared(m, name)
}

/// The tracker state after recording `name` as a `var` at `pos`.
pub open spec fn with_var_inserted(m: NamesModel, name: Seq<char>, pos: Position) -> NamesModel {
    NamesModel { var: m.var.insert(name, pos), ..m }
}

/// Whether recording `name` lexically succeeds: it must collide neither with a
/// `var` nor with a lexical name of the current level. Outer lexical levels do
/// not matter: shadowing them is legal.
pub open spec fn lex_insert_ok(m: NamesModel, name: Seq<char>) -> bool {
    !m.var.contains_key(name) && !m.lex.contains_key(name)
}

/// The tracker state after recording `name` lexically at `pos`.
pub open spec fn with_lex_inserted(m: NamesModel, name: Seq<char>, pos: Position) -> NamesModel {
    NamesModel { lex: m.lex.insert(name, pos), ..m }
}

/// The tracker state after entering a nested scope: the current level is
/// saved and both current maps start empty.
pub open spec fn pushed(m: NamesModel) -> NamesModel {
    NamesModel {
        lex: Map::empty(),
        var: Map::empty(),
        stack: m.stack.push(ScopeModel { lex: m.lex, var: m.var }),
    }
}

/// The tracker state after leaving a nested scope: the saved lexical names
/// come back verbatim, while the inner `var` names are merged into the outer
/// ones (an outer entry wins when both levels declared the name).
pub open spec fn popped(m: NamesModel) -> NamesModel
    recommends
        m.stack.len() > 0,
{
    NamesModel {
        lex: m.stack.last().lex,
        var: m.var.union_prefer_right(m.stack.last().var),
        stack: m.stack.drop_last(),
    }
}

/// Whether leaving a scope succeeds: no merged `var` name may collide with a
/// lexical name that is active after the restore.
pub open spec fn pop_ok(m: NamesModel) -> bool
    recommends
        m.stack.len() > 0,
{
    forall|n: Seq<char>|
        popped(m).var.contains_key(n) ==> !any_lex_declared(popped(m), n)
}

/// A tracker state with no pending collision: no recorded `var` name is also
/// an active lexical name. Holds of the empty tracker and is preserved by
/// every successful operation.
pub open spec fn collision_free(m: NamesModel) -> bool {
    forall|n: Seq<char>| m.var.contains_key(n) ==> !any_lex_declared(m, n)
}

/// The empty tracker state.
pub open spec fn empty_names_model() -> NamesModel {
    NamesModel { lex: Map::empty(), var: Map::empty(), stack: Seq::empty() }
}

/// Message of a redeclaration error raised when a name is inserted.
pub open spec fn redeclaration_message(name: Seq<char>) -> Seq<char> {
    "Redeclaration of variable `"@ + name + "`"@
}

/// Message of a redeclaration error raised when a scope level is left.
pub open spec fn pop_redeclaration_message(name: Seq<char>) -> Seq<char> {
    "Redeclaration of variable (in pop) `"@ + name + "`"@
}

/// Tracks all of the names declared so far during a parse: the current
/// level's lexically declared and variable-declared names, and a stack of the
/// enclosing levels' saved pairs.
#[derive(Clone, Debug)]
pub struct DeclaredNames {
    lex: Vec<NameEntry>,
    var: Vec<NameEntry>,
    stack: Vec<(Vec<NameEntry>, Vec<NameEntry>)>,
}

impl View for DeclaredNames {
    type V = NamesModel;

    closed spec fn view(&self) -> NamesModel {
        NamesModel {
            lex: names_map(self.lex@),
            var: names_map(self.var@),
            stack: Seq::new(
                self.stack@.len(),
                |i: int|
                    ScopeModel {
                        lex: names_map(self.stack@[i].0@),
                        var: names_map(self.stack@[i].1@),
                    },
            ),
        }
    }
}

impl DeclaredNames {
    /// The association lists behind the tracker never repeat a name.
    pub closed spec fn wf(&self) -> bool {
        &&& distinct_names(self.lex@)
        &&& distinct_names(self.var@)
        &&& forall|i: int|
            0 <= i < self.stack@.len() ==> distinct_names(#[trigger] self.stack@[i].0@)
                && distinct_names(self.stack@[i].1@)
    }
}

impl Default for DeclaredNames {
    /// A tracker with no declared names and no saved levels.
    fn default() -> (d: DeclaredNames)
        ensures
            d.wf(),
            d@ == empty_names_model(),
    {
        let d = DeclaredNames { lex: Vec::new(), var: Vec::new(), stack: Vec::new() };
        proof {
            assert(d@.stack =~= empty_names_model().stack);
            assert(d@ =~~= empty_names_model());
        }
        d
    }
}

/// The denoted map holds a name exactly when some entry of the list carries it.
proof fn lemma_names_map_contains(s: Seq<NameEntry>, n: Seq<char>)
    ensures
        names_map(s).contains_key(n) <==> exists|i: int| 0 <= i < s.len() && s[i].name@ == n,
    decreases s.len(),
{
    if s.len() > 0 {
        lemma_names_map_contains(s.drop_last(), n);
        if names_map(s).contains_key(n) {
            if s.last().name@ == n {
                assert(s[s.len() - 1].name@ == n);
            } else {
                let i = choose|i: int| 0 <= i < s.drop_last().len() && s.drop_last()[i].name@ == n;
                assert(s[i].name@ == n);
            }
        }
        if exists|i: int| 0 <= i < s.len() && s[i].name@ == n {
            let i = choose|i: int| 0 <= i < s.len() && s[i].name@ == n;
            if i < s.len() - 1 {
                assert(s.drop_last()[i].name@ == n);
            }
        }
    }
}

/// In a list without repeated names, the denoted map sends each entry's name
/// to that entry's position.
proof fn lemma_names_map_index(s: Seq<NameEntry>, i: int)
    requires
        distinct_names(s),
        0 <= i < s.len(),
    ensures
        names_map(s).contains_key(s[i].name@),
        names_map(s)[s[i].name@] == s[i].pos,
    decreases s.len(),
{
    lemma_names_map_contains(s, s[i].name@);
    if i < s.len() - 1 {
        assert(distinct_names(s.drop_last()));
        lemma_names_map_index(s.drop_last(), i);
        assert(s[i].name@ != s.last().name@);
    }
}

/// Overwriting the entry that already carries a name denotes the same map as
/// inserting the name afresh.
proof fn lemma_names_map_update(s: Seq<NameEntry>, i: int, e: NameEntry)
    requires
        distinct_names(s),
        0 <= i < s.len(),
        s[i].name@ == e.name@,
    ensures
        names_map(s.update(i, e)) == names_map(s).insert(e.name@, e.pos),
        distinct_names(s.update(i, e)),
    decreases s.len(),
{
    let t = s.update(i, e);
    if i == s.len() - 1 {
        assert(t.drop_last() =~= s.drop_last());
        assert(names_map(t) =~= names_map(s).insert(e.name@, e.pos));
    } else {
        assert(t.drop_last() =~= s.drop_last().update(i, e));
        assert(distinct_names(s.drop_last()));
        lemma_names_map_update(s.drop_last(), i, e);
        assert(t.last() == s.last());
        lemma_names_map_contains(s.drop_last(), e.name@);
        assert(s.last().name@ != e.name@);
        assert(names_map(t) =~= names_map(s).insert(e.name@, e.pos));
    }
}

/// Finds the index of the entry carrying `name`, if the list has one.
fn names_find(v: &Vec<NameEntry>, name: &String) -> (r: Option<usize>)
    ensures
        match r {
            Some(i) => i < v@.len() && v@[i as int].name@ == name@,
            None => forall|j: int| 0 <= j < v@.len() ==> v@[j].name@ != name@,
        },
{
    let mut i: usize = 0;
    while i < v.len()
        invariant
            i <= v@.len(),
            forall|j: int| 0 <= j < i ==> v@[j].name@ != name@,
        decreases v@.len() - i,
    {
        if v[i].name == *name {
            return Some(i);
        }
        i = i + 1;
    }
    None
}

/// Decides whether some entry of the list carries `name`.
fn names_contains(v: &Vec<NameEntry>, name: &String) -> (r: bool)
    ensures
        r == names_map(v@).contains_key(name@),
{
    proof {
        lemma_names_map_contains(v@, name@);
    }
    match names_find(v, name) {
        Some(_) => true,
        None => false,
    }
}

/// Records `name` at `pos`, overwriting the entry that already carries the
/// name if the list has one.
fn names_insert(v: &mut Vec<NameEntry>, name: &String, pos: Position)
    requires
        distinct_names(old(v)@),
    ensures
        distinct_names(final(v)@),
        names_map(final(v)@) == names_map(old(v)@).insert(name@, pos),
{
    let entry = NameEntry { name: name.clone(), pos };
    match names_find(v, name) {
        Some(i) => {
            proof {
                lemma_names_map_update(v@, i as int, entry);
            }
            v[i] = entry;
        },
        None => {
            proof {
                assert(v@.push(entry).drop_last() =~= v@);
            }
            v.push(entry);
        },
    }
}

impl DeclaredNames {
    /// Decides whether `name` is lexically declared at the current level or at
    /// any enclosing stacked level.
    pub fn check_any_lex(&self, name: &str) -> (r: bool)
        ensures
            r == any_lex_declared(self@, name@),
    {
        let owned = name.to_owned();
        if names_contains(&self.lex, &owned) {
            return true;
        }
        let mut i: usize = 0;
        while i < self.stack.len()
            invariant
                i <= self.stack@.len(),
                owned@ == name@,
                !self@.lex.contains_key(name@),
                forall|j: int| 0 <= j < i ==> !#[trigger] self@.stack[j].lex.contains_key(name@),
            decreases self.stack@.len() - i,
        {
            if names_contains(&self.stack[i].0, &owned) {
                proof {
                    assert(self@.stack[i as int].lex == names_map(self.stack@[i as int].0@));
                }
                return true;
            }
            i = i + 1;
        }
        false
    }
}

/// Builds the message of a redeclaration error raised at an insert.
fn build_redeclaration_message(name: &str) -> (m: String)
    ensures
        m@ == redeclaration_message(name@),
{
    let mut m = String::from_str("Redeclaration of variable `");
    m.append(name);
    m.append("`");
    m
}

/// Builds the message of a redeclaration error raised when a level is left.
fn build_pop_redeclaration_message(name: &str) -> (m: String)
    ensures
        m@ == pop_redeclaration_message(name@),
{
    let mut m = String::from_str("Redeclaration of variable (in pop) `");
    m.append(name);
    m.append("`");
    m
}

impl DeclaredNames {
    /// Records a variable-declared (`var`) name. Fails when the name is
    /// lexically declared at the current level or at any enclosing one —
    /// function-scoped hoisting must not shadow an active lexical binding.
    /// An existing `var` entry for the same name is overwritten.
    pub fn insert_var_name(&mut self, name: &str, pos: Position) -> (r: Result<(), ParseError>)
        requires
            old(self).wf(),
        ensures
            final(self).wf(),
            r is Ok <==> var_insert_ok(old(self)@, name@),
            r is Ok ==> final(self)@ == with_var_inserted(old(self)@, name@, pos),
            r matches Err(e) ==> final(self)@ == old(self)@ && (e matches ParseError::Syntax {
                message: m,
                position: p,
            } && m@ == redeclaration_message(name@) && p == pos),
    {
        if self.check_any_lex(name) {
            Err(ParseError::syntax(build_redeclaration_message(name), pos))
        } else {
            let owned = name.to_owned();
            names_insert(&mut self.var, &owned, pos);
            proof {
                assert(self@ =~~= with_var_inserted(old(self)@, name@, pos));
            }
            Ok(())
        }
    }

    /// Records a lexically declared (`let`/`const`) name. Fails when the name
    /// is already a `var` of the current level or already lexically declared
    /// at the current level; outer lexical levels do not matter.
    pub fn insert_lex_name(&mut self, name: &str, pos: Position) -> (r: Result<(), ParseError>)
        requires
            old(self).wf(),
        ensures
            final(self).wf(),
            r is Ok <==> lex_insert_ok(old(self)@, name@),
            r is Ok ==> final(self)@ == with_lex_inserted(old(self)@, name@, pos),
            r matches Err(e) ==> final(self)@ == old(self)@ && (e matches ParseError::Syntax {
                message: m,
                position: p,
            } && m@ == redeclaration_message(name@) && p == pos),
    {
        let owned = name.to_owned();
        if names_contains(&self.var, &owned) || names_contains(&self.lex, &owned) {
            Err(ParseError::syntax(build_redeclaration_message(name), pos))
        } else {
            names_insert(&mut self.lex, &owned, pos);
            proof {
                assert(self@ =~~= with_lex_inserted(old(self)@, name@, pos));
            }
            Ok(())
        }
    }

    /// Enters a nested lexical scope: saves the current level on the stack
    /// and starts both current maps empty. Always paired with a later
    /// [`pop_stack`](Self::pop_stack).
    pub fn push_stack(&mut self)
        requires
            old(self).wf(),
        ensures
            final(self).wf(),
            final(self)@ == pushed(old(self)@),
    {
        let mut lex_old: Vec<NameEntry> = Vec::new();
        let mut var_old: Vec<NameEntry> = Vec::new();
        core::mem::swap(&mut self.lex, &mut lex_old);
        core::mem::swap(&mut self.var, &mut var_old);
        self.stack.push((lex_old, var_old));
        proof {
            assert(self@.stack =~= pushed(old(self)@).stack);
            assert(self@.lex =~= pushed(old(self)@).lex);
            assert(self@.var =~= pushed(old(self)@).var);
            assert(self@ =~~= pushed(old(self)@));
        }
    }

    /// Leaves a nested lexical scope: restores the saved lexical names
    /// verbatim, merges the inner `var` names into the outer ones, and then
    /// re-checks every merged `var` name against the active lexical names,
    /// failing with a redeclaration error on a collision.
    ///
    /// Calling this without a matching [`push_stack`](Self::push_stack) is a
    /// contract violation, not a recoverable error; the precondition rules it
    /// out.
    pub fn pop_stack(&mut self) -> (r: Result<(), ParseError>)
        requires
            old(self).wf(),
            old(self)@.stack.len() > 0,
        ensures
            final(self).wf(),
            final(self)@ == popped(old(self)@),
            r is Ok <==> pop_ok(old(self)@),
            r matches Err(e) ==> exists|n: Seq<char>|
                popped(old(self)@).var.contains_key(n) && any_lex_declared(popped(old(self)@), n)
                    && (e matches ParseError::Syntax { message: m, position: p } && m@
                    == pop_redeclaration_message(n) && p == popped(old(self)@).var[n]),
    {
        let ghost gold = old(self)@;
        proof {
            assert(distinct_names(old(self).stack@[old(self).stack@.len() - 1].0@));
            assert(distinct_names(old(self).stack@[old(self).stack@.len() - 1].1@));
        }
        let top = self.stack.pop().unwrap();
        proof {
            assert(self.stack@ =~= old(self).stack@.drop_last());
        }
        self.lex = top.0;
        // Merge the outer `var` names into the inner ones; an outer entry
        // overwrites an inner one carrying the same name.
        let mut k: usize = 0;
        proof {
            assert(names_map(top.1@.take(0)) =~= Map::<Seq<char>, Position>::empty());
            assert(names_map(self.var@) =~= names_map(self.var@).union_prefer_right(
                names_map(top.1@.take(0)),
            ));
        }
        while k < top.1.len()
            invariant
                k <= top.1@.len(),
                distinct_names(self.var@),
                distinct_names(top.1@),
                self.lex@ == top.0@,
                self.stack@ == old(self).stack@.drop_last(),
                names_map(self.var@) == names_map(old(self).var@).union_prefer_right(
                    names_map(top.1@.take(k as int)),
                ),
            decreases top.1@.len() - k,
        {
            let ghost before = names_map(self.var@);
            let entry = &top.1[k];
            names_insert(&mut self.var, &entry.name, entry.pos);
            proof {
                assert(top.1@.take(k + 1).drop_last() =~= top.1@.take(k as int));
                assert(names_map(top.1@.take(k + 1)) == names_map(top.1@.take(k as int)).insert(
                    top.1@[k as int].name@,
                    top.1@[k as int].pos,
                ));
                assert(names_map(self.var@) =~= names_map(old(self).var@).union_prefer_right(
                    names_map(top.1@.take(k + 1)),
                ));
            }
            k = k + 1;
        }
        proof {
            assert(top.1@.take(top.1@.len() as int) =~= top.1@);
            assert(gold.stack.last() == ScopeModel {
                lex: names_map(top.0@),
                var: names_map(top.1@),
            });
            assert(self@.stack =~= gold.stack.drop_last());
            assert forall|i: int| 0 <= i < self.stack@.len() implies distinct_names(
                #[trigger] self.stack@[i].0@,
            ) && distinct_names(self.stack@[i].1@) by {
                assert(self.stack@[i] == old(self).stack@[i]);
                assert(distinct_names(old(self).stack@[i].0@));
            }
            assert(self@ =~~= popped(gold));
        }
        // Re-check every merged `var` name against the restored lexical names:
        // this catches a `var` nested inside a block that already declared the
        // same name lexically.
        let mut i: usize = 0;
        while i < self.var.len()
            invariant
                gold == old(self)@,
                gold.stack.len() > 0,
                i <= self.var@.len(),
                self.wf(),
                self@ == popped(gold),
                forall|j: int|
                    0 <= j < i ==> !any_lex_declared(self@, #[trigger] self.var@[j].name@),
            decreases self.var@.len() - i,
        {
            if self.check_any_lex(self.var[i].name.as_str()) {
                let name = self.var[i].name.clone();
                let p = self.var[i].pos;
                proof {
                    lemma_names_map_index(self.var@, i as int);
                    assert(!pop_ok(gold));
                }
                return Err(ParseError::syntax(build_pop_redeclaration_message(name.as_str()), p));
            }
            i = i + 1;
        }
        proof {
            assert forall|n: Seq<char>| popped(gold).var.contains_key(n) implies !any_lex_declared(
                popped(gold),
                n,
            ) by {
                lemma_names_map_contains(self.var@, n);
            }
        }
        Ok(())
    }
}

} // verus!

verus! {

/// Law: a name lexically declared at the current level cannot be lexically
/// declared there a second time — the second insert is rejected.
pub proof fn lemma_duplicate_lex_name_fails(m: NamesModel, name: Seq<char>, pos: Position)
    requires
        lex_insert_ok(m, name),
    ensures
        !lex_insert_ok(with_lex_inserted(m, name, pos), name),
{
}

/// Law: an active lexical declaration blocks a later `var` of the same name,
/// whether the `var` appears at the same level or in a scope nested below it.
pub proof fn lemma_lex_blocks_var(m: NamesModel, name: Seq<char>, pos: Position)
    ensures
        !var_insert_ok(with_lex_inserted(m, name, pos), name),
        !var_insert_ok(pushed(with_lex_inserted(m, name, pos)), name),
{
    let m1 = with_lex_inserted(m, name, pos);
    let m2 = pushed(m1);
    assert(m2.stack[m2.stack.len() - 1].lex.contains_key(name));
}

/// Law: an active `var` blocks a later lexical declaration of the same name
/// at the same level.
pub proof fn lemma_var_blocks_lex(m: NamesModel, name: Seq<char>, pos: Position)
    ensures
        !lex_insert_ok(with_var_inserted(m, name, pos), name),
{
}

/// Law: shadowing across nested lexical scopes is legal. Entering a scope,
/// declaring a name lexically, entering a second scope and declaring the same
/// name again all succeed, and both scopes can be left without a
/// redeclaration error.
pub proof fn lemma_nested_lex_shadowing_allowed(
    m: NamesModel,
    name: Seq<char>,
    p1: Position,
    p2: Position,
)
    requires
        collision_free(m),
    ensures
        ({
            let m1 = pushed(m);
            let m2 = with_lex_inserted(m1, name, p1);
            let m3 = pushed(m2);
            let m4 = with_lex_inserted(m3, name, p2);
            let m5 = popped(m4);
            &&& lex_insert_ok(m1, name)
            &&& lex_insert_ok(m3, name)
            &&& m4.stack.len() > 0
            &&& pop_ok(m4)
            &&& m5.stack.len() > 0
            &&& pop_ok(m5)
        }),
{
    let m1 = pushed(m);
    let m2 = with_lex_inserted(m1, name, p1);
    let m3 = pushed(m2);
    let m4 = with_lex_inserted(m3, name, p2);
    let m5 = popped(m4);
    assert(m5.stack =~= m.stack.push(ScopeModel { lex: m.lex, var: m.var }));
    let m6 = popped(m5);
    assert(m6.stack =~= m.stack);
    assert(m6.lex =~= m.lex);
    assert forall|n: Seq<char>| m6.var.contains_key(n) implies !any_lex_declared(m6, n) by {
        assert(m.var.contains_key(n));
        assert(!any_lex_declared(m, n));
        if any_lex_declared(m6, n) {
            let i = choose|i: int| 0 <= i < m6.stack.len() && m6.stack[i].lex.contains_key(n);
            assert(m.stack[i].lex.contains_key(n));
        }
    }
}

/// Law: a function-scoped name may be declared with `var` again in a nested
/// scope; the nested declaration merges outward when the scopes are left, and
/// neither leave raises a redeclaration error.
pub proof fn lemma_var_redeclaration_across_scopes_allowed(
    m: NamesModel,
    name: Seq<char>,
    p1: Position,
    p2: Position,
)
    requires
        collision_free(m),
        !any_lex_declared(m, name),
    ensures
        ({
            let m1 = pushed(m);
            let m2 = with_var_inserted(m1, name, p1);
            let m3 = pushed(m2);
            let m4 = with_var_inserted(m3, name, p2);
            let m5 = popped(m4);
            &&& var_insert_ok(m1, name)
            &&& var_insert_ok(m3, name)
            &&& m4.stack.len() > 0
            &&& pop_ok(m4)
            &&& m5.stack.len() > 0
            &&& pop_ok(m5)
        }),
{
    let m1 = pushed(m);
    let m2 = with_var_inserted(m1, name, p1);
    let m3 = pushed(m2);
    let m4 = with_var_inserted(m3, name, p2);
    let m5 = popped(m4);
    assert(!any_lex_declared(m1, name)) by {
        if any_lex_declared(m1, name) {
            let i = choose|i: int| 0 <= i < m1.stack.len() && m1.stack[i].lex.contains_key(name);
            if i < m.stack.len() {
                assert(m.stack[i].lex.contains_key(name));
            } else {
                assert(m.lex.contains_key(name));
            }
        }
    }
    assert(!any_lex_declared(m3, name)) by {
        if any_lex_declared(m3, name) {
            let i = choose|i: int| 0 <= i < m3.stack.len() && m3.stack[i].lex.contains_key(name);
            if i < m.stack.len() {
                assert(m.stack[i].lex.contains_key(name));
            } else if i == m.stack.len() {
                assert(m.lex.contains_key(name));
            }
        }
    }
    assert(m5.stack =~= m.stack.push(ScopeModel { lex: m.lex, var: m.var }));
    assert forall|n: Seq<char>| popped(m4).var.contains_key(n) implies !any_lex_declared(
        popped(m4),
        n,
    ) by {
        assert(n == name);
        if any_lex_declared(popped(m4), n) {
            let i = choose|i: int|
                0 <= i < popped(m4).stack.len() && popped(m4).stack[i].lex.contains_key(n);
            if i < m.stack.len() {
                assert(m.stack[i].lex.contains_key(name));
            } else {
                assert(m.lex.contains_key(name));
            }
        }
    }
    let m6 = popped(m5);
    assert(m6.stack =~= m.stack);
    assert(m6.lex =~= m.lex);
    assert forall|n: Seq<char>| m6.var.contains_key(n) implies !any_lex_declared(m6, n) by {
        assert(n == name || m.var.contains_key(n));
        assert(!any_lex_declared(m, n));
        if any_lex_declared(m6, n) {
            let i = choose|i: int| 0 <= i < m6.stack.len() && m6.stack[i].lex.contains_key(n);
            assert(m.stack[i].lex.contains_key(n));
        }
    }
}

/// Law: inside the nested scope of the previous law, an intervening lexical
/// declaration of the already-`var`-declared name is rejected at the insert
/// itself — the name is an active `var` of that level, so the collision never
/// survives to the closing of the scope.
pub proof fn lemma_var_then_lex_in_inner_scope_fails(
    m: NamesModel,
    name: Seq<char>,
    p1: Position,
    p2: Position,
)
    ensures
        !lex_insert_ok(
            with_var_inserted(pushed(with_var_inserted(pushed(m), name, p1)), name, p2),
            name,
        ),
{
}

} // verus!

verus! {

/// Law: leaving a scope that was entered and never written restores the
/// tracker exactly, and succeeds exactly when the state carried no pending
/// collision to begin with.
pub proof fn lemma_push_pop_identity(m: NamesModel)
    ensures
        popped(pushed(m)) == m,
        pop_ok(pushed(m)) <==> collision_free(m),
{
    assert(popped(pushed(m)).var =~= m.var);
    assert(popped(pushed(m)).stack =~= m.stack);
    assert(popped(pushed(m)) =~~= m);
}

} // verus!
