use crate::interpreter::{ExprValue, RuntimeError, RuntimeErrorView, ValueView};
use crate::token::{Token, TokenView};
use vstd::prelude::*;

verus! {

/// The index of the innermost scope that defines `name`, searching outward
/// from the last scope of the chain.
pub open spec fn resolve(scopes: Seq<Map<Seq<char>, ValueView>>, name: Seq<char>) -> Option<int>
    decreases scopes.len(),
{
    if scopes.len() == 0 {
        None
    } else if scopes.last().contains_key(name) {
        Some(scopes.len() - 1)
    } else {
        resolve(scopes.drop_last(), name)
    }
}

/// The value that `name` is bound to, where some scope of the chain defines it.
pub open spec fn lookup(scopes: Seq<Map<Seq<char>, ValueView>>, name: Seq<char>) -> Option<
    ValueView,
> {
    match resolve(scopes, name) {
        Some(i) => Some(scopes[i][name]),
        None => None,
    }
}

/// The chain after `name` is bound to `value` in the innermost scope.
pub open spec fn defined(
    scopes: Seq<Map<Seq<char>, ValueView>>,
    name: Seq<char>,
    value: ValueView,
) -> Seq<Map<Seq<char>, ValueView>> {
    scopes.update(scopes.len() - 1, scopes.last().insert(name, value))
}

/// The chain after `value` is stored in the innermost scope that defines
/// `name`, where there is one.
pub open spec fn assigned(
    scopes: Seq<Map<Seq<char>, ValueView>>,
    name: Seq<char>,
    value: ValueView,
) -> Option<Seq<Map<Seq<char>, ValueView>>> {
    match resolve(scopes, name) {
        Some(i) => Some(scopes.update(i, scopes[i].insert(name, value))),
        None => None,
    }
}

/// The error for a name that no scope defines.
pub open spec fn undefined_variable(name: TokenView) -> RuntimeErrorView {
    RuntimeErrorView {
        token: name.lexeme,
        message: "Undefined variable '"@ + name.lexeme + "'."@,
        line: name.line,
    }
}

/// One name with the value it is bound to.
struct Binding {
    name: String,
    value: ExprValue,
}

/// The table that a list of bindings stands for: a later binding of a name
/// hides an earlier one.
spec fn table(bindings: Seq<Binding>) -> Map<Seq<char>, ValueView>
    decreases bindings.len(),
{
    if bindings.len() == 0 {
        Map::empty()
    } else {
        table(bindings.drop_last()).insert(bindings.last().name@, bindings.last().value@)
    }
}

proof fn lemma_table_push(bindings: Seq<Binding>, b: Binding)
    ensures
        table(bindings.push(b)) == table(bindings).insert(b.name@, b.value@),
{
    assert(bindings.push(b).drop_last() =~= bindings);
}

proof fn lemma_table_absent(bindings: Seq<Binding>, name: Seq<char>)
    requires
        forall|j: int| 0 <= j < bindings.len() ==> bindings[j].name@ != name,
    ensures
        !table(bindings).contains_key(name),
    decreases bindings.len(),
{
    if bindings.len() > 0 {
        lemma_table_absent(bindings.drop_last(), name);
    }
}

proof fn lemma_table_found(bindings: Seq<Binding>, name: Seq<char>, i: int)
    requires
        0 <= i < bindings.len(),
        bindings[i].name@ == name,
        forall|j: int| i < j < bindings.len() ==> bindings[j].name@ != name,
    ensures
        table(bindings).contains_key(name),
        table(bindings)[name] == bindings[i].value@,
    decreases bindings.len(),
{
    if i < bindings.len() - 1 {
        lemma_table_found(bindings.drop_last(), name, i);
    }
}

proof fn lemma_table_store(bindings: Seq<Binding>, i: int, b: Binding)
    requires
        0 <= i < bindings.len(),
        bindings[i].name@ == b.name@,
        forall|j: int| i < j < bindings.len() ==> bindings[j].name@ != b.name@,
    ensures
        table(bindings.update(i, b)) == table(bindings).insert(b.name@, b.value@),
    decreases bindings.len(),
{
    let after = bindings.update(i, b);
    if i < bindings.len() - 1 {
        lemma_table_store(bindings.drop_last(), i, b);
        assert(after.drop_last() =~= bindings.drop_last().update(i, b));
        assert(after.last() == bindings.last());
        assert(table(after) =~= table(bindings).insert(b.name@, b.value@));
    } else {
        assert(after.drop_last() =~= bindings.drop_last());
        assert(table(after) =~= table(bindings).insert(b.name@, b.value@));
    }
}

/// The position of the binding of `name` that counts: the last one.
fn find(bindings: &Vec<Binding>, name: &String) -> (r: Option<usize>)
    ensures
        match r {
            Some(i) => i < bindings.len() && table(bindings@).contains_key(name@) && table(
                bindings@,
            )[name@] == bindings[i as int].value@ && bindings[i as int].name@ == name@ && forall|
                j: int,
            |
                i < j < bindings.len() ==> bindings[j].name@ != name@,
            None => !table(bindings@).contains_key(name@),
        },
{
    let mut i: usize = bindings.len();
    while i > 0
        invariant
            i <= bindings.len(),
            forall|j: int| i <= j < bindings.len() ==> bindings[j].name@ != name@,
        decreases i,
    {
        i -= 1;
        if bindings[i].name == *name {
            proof {
                lemma_table_found(bindings@, name@, i as int);
            }
            return Some(i);
        }
    }
    proof {
        lemma_table_absent(bindings@, name@);
    }
    None
}

/// A chain of scopes. The last scope is the innermost one; the scope that
/// encloses a scope is the one before it, and the first is the global scope.
pub struct Environment {
    scopes: Vec<Vec<Binding>>,
}

impl View for Environment {
    type V = Seq<Map<Seq<char>, ValueView>>;

    closed spec fn view(&self) -> Seq<Map<Seq<char>, ValueView>> {
        Seq::new(self.scopes.len() as nat, |i: int| table(self.scopes[i]@))
    }
}

impl Environment {
    /// An environment that holds the global scope only, with nothing defined.
    pub fn new() -> (r: Self)
        ensures
            r@ == seq![Map::<Seq<char>, ValueView>::empty()],
    {
        let mut scopes: Vec<Vec<Binding>> = Vec::new();
        scopes.push(Vec::new());
        let r = Environment { scopes };
        assert(r@ =~= seq![Map::<Seq<char>, ValueView>::empty()]);
        r
    }

    /// Opens a scope inside the current one.
    pub fn enter_scope(&mut self)
        ensures
            final(self)@ == old(self)@.push(Map::empty()),
    {
        self.scopes.push(Vec::new());
        assert(self@ =~= old(self)@.push(Map::empty()));
    }

    /// Discards the innermost scope. The global scope stays.
    pub fn leave_scope(&mut self)
        ensures
            final(self)@ == if old(self)@.len() > 1 {
                old(self)@.drop_last()
            } else {
                old(self)@
            },
    {
        if self.scopes.len() > 1 {
            self.scopes.pop();
            assert(self@ =~= old(self)@.drop_last());
        }
    }

    /// Binds `name` in the innermost scope, over any binding it has there.
    pub fn define(&mut self, name: String, value: ExprValue)
        requires
            old(self)@.len() > 0,
        ensures
            final(self)@ == defined(old(self)@, name@, value@),
            final(self)@.len() == old(self)@.len(),
    {
        let last: usize = self.scopes.len() - 1;
        let found = find(&self.scopes[last], &name);
        match found {
            Some(i) => {
                let b = Binding { name, value };
                proof {
                    lemma_table_store(self.scopes[last as int]@, i as int, b);
                }
                self.scopes[last][i] = b;
            },
            None => {
                let b = Binding { name, value };
                proof {
                    lemma_table_push(self.scopes[last as int]@, b);
                }
                self.scopes[last].push(b);
            },
        }
        assert(self@ =~= defined(old(self)@, name@, value@));
    }

    /// The innermost scope that binds `name`, searching outward.
    fn locate(&self, name: &String) -> (r: Option<(usize, usize)>)
        ensures
            match r {
                Some((s, i)) => resolve(self@, name@) == Some(s as int) && s < self.scopes.len()
                    && i < self.scopes[s as int].len() && self@[s as int][name@]
                    == self.scopes[s as int][i as int].value@ && self.scopes[s as int][i as int].name@
                    == name@ && forall|j: int|
                    i < j < self.scopes[s as int].len() ==> self.scopes[s as int][j].name@
                        != name@,
                None => resolve(self@, name@) is None,
            },
    {
        let mut s: usize = self.scopes.len();
        assert(self@.subrange(0, s as int) =~= self@);
        while s > 0
            invariant
                s <= self.scopes.len(),
                resolve(self@, name@) == resolve(self@.subrange(0, s as int), name@),
            decreases s,
        {
            s -= 1;
            let found = find(&self.scopes[s], name);
            proof {
                let upper = self@.subrange(0, s + 1);
                assert(upper.last() == self@[s as int]);
                assert(upper.drop_last() =~= self@.subrange(0, s as int));
            }
            match found {
                Some(i) => {
                    return Some((s, i));
                },
                None => {},
            }
        }
        proof {
            assert(self@.subrange(0, 0).len() == 0);
        }
        None
    }

    /// The value of `name` in the innermost scope that defines it.
    pub fn get(&self, name: &Token) -> (r: Result<ExprValue, RuntimeError>)
        ensures
            match r {
                Ok(v) => lookup(self@, name@.lexeme) == Some(v@),
                Err(e) => lookup(self@, name@.lexeme) is None && e@ == undefined_variable(name@),
            },
    {
        match self.locate(&name.lexeme) {
            Some((s, i)) => Ok(self.scopes[s][i].value.clone()),
            None => Err(undefined(name)),
        }
    }

    /// Stores `value` in the innermost scope that defines `name`; binds
    /// nothing where no scope does.
    pub fn assign(&mut self, name: &Token, value: ExprValue) -> (r: Result<(), RuntimeError>)
        ensures
            match r {
                Ok(_) => assigned(old(self)@, name@.lexeme, value@) == Some(final(self)@),
                Err(e) => assigned(old(self)@, name@.lexeme, value@) is None && e@
                    == undefined_variable(name@) && final(self)@ == old(self)@,
            },
            final(self)@.len() == old(self)@.len(),
    {
        match self.locate(&name.lexeme) {
            Some((s, i)) => {
                let b = Binding { name: name.lexeme.clone(), value };
                proof {
                    lemma_table_store(self.scopes[s as int]@, i as int, b);
                }
                self.scopes[s][i] = b;
                assert(self@ =~= old(self)@.update(
                    s as int,
                    old(self)@[s as int].insert(name@.lexeme, value@),
                ));
                Ok(())
            },
            None => Err(undefined(name)),
        }
    }
}

/// Builds the error for a name that no scope defines.
fn undefined(name: &Token) -> (e: RuntimeError)
    ensures
        e@ == undefined_variable(name@),
{
    let mut message = "Undefined variable '".to_owned();
    message.append(name.lexeme.as_str());
    message.append("'.");
    RuntimeError { token: name.lexeme.clone(), message, line: name.line }
}

} // verus!

verus! {

/// Whether two chains have the same scopes with the same names in each.
pub open spec fn same_names(
    a: Seq<Map<Seq<char>, ValueView>>,
    b: Seq<Map<Seq<char>, ValueView>>,
) -> bool {
    &&& a.len() == b.len()
    &&& forall|i: int| 0 <= i < a.len() ==> #[trigger] a[i].dom() == b[i].dom()
}

/// The scope that resolution finds is the innermost one that defines the
/// name; it finds none only where no scope defines it.
pub proof fn resolve_finds_innermost(scopes: Seq<Map<Seq<char>, ValueView>>, name: Seq<char>)
    ensures
        match resolve(scopes, name) {
            Some(i) => 0 <= i < scopes.len() && scopes[i].contains_key(name) && forall|j: int|
                i < j < scopes.len() ==> !(#[trigger] scopes[j]).contains_key(name),
            None => forall|j: int| 0 <= j < scopes.len() ==> !(#[trigger] scopes[j]).contains_key(name),
        },
    decreases scopes.len(),
{
    if scopes.len() > 0 && !scopes.last().contains_key(name) {
        resolve_finds_innermost(scopes.drop_last(), name);
        assert forall|j: int| 0 <= j < scopes.len() - 1 implies scopes[j] == scopes.drop_last()[j] by {}
    }
}

/// Resolution depends on the names of the scopes only.
pub proof fn resolve_reads_names(
    a: Seq<Map<Seq<char>, ValueView>>,
    b: Seq<Map<Seq<char>, ValueView>>,
    name: Seq<char>,
)
    requires
        same_names(a, b),
    ensures
        resolve(a, name) == resolve(b, name),
    decreases a.len(),
{
    if a.len() > 0 {
        assert(a.last().dom() == b.last().dom());
        if !a.last().contains_key(name) {
            assert forall|i: int| 0 <= i < a.len() - 1 implies #[trigger] a.drop_last()[i].dom()
                == b.drop_last()[i].dom() by {
                assert(a[i].dom() == b[i].dom());
            }
            resolve_reads_names(a.drop_last(), b.drop_last(), name);
        }
    }
}

/// A definition is seen at once, and hides what the name was bound to in
/// the enclosing scopes.
pub proof fn definition_is_visible(
    scopes: Seq<Map<Seq<char>, ValueView>>,
    name: Seq<char>,
    value: ValueView,
)
    requires
        scopes.len() > 0,
    ensures
        lookup(defined(scopes, name, value), name) == Some(value),
        defined(scopes, name, value).drop_last() == scopes.drop_last(),
{
    assert(defined(scopes, name, value).drop_last() =~= scopes.drop_last());
}

/// An assignment binds no new name: it fails exactly where no scope defines
/// the name, and where it succeeds every scope keeps its names.
pub proof fn assignment_declares_nothing(
    scopes: Seq<Map<Seq<char>, ValueView>>,
    name: Seq<char>,
    value: ValueView,
)
    ensures
        assigned(scopes, name, value) is None <==> lookup(scopes, name) is None,
        match assigned(scopes, name, value) {
            Some(after) => same_names(scopes, after) && lookup(after, name) == Some(value),
            None => true,
        },
{
    resolve_finds_innermost(scopes, name);
    match assigned(scopes, name, value) {
        Some(after) => {
            let i = resolve(scopes, name)->0;
            assert(scopes[i].insert(name, value).dom() =~= scopes[i].dom());
            assert(same_names(scopes, after));
            resolve_reads_names(scopes, after, name);
        },
        None => {},
    }
}

/// An assignment made inside a nested scope to a name that only an
/// enclosing scope defines changes that enclosing binding: the inner scope
/// stays as it was, and the new value is what the name has once the inner
/// scope is gone.
pub proof fn assignment_reaches_enclosing_scope(
    scopes: Seq<Map<Seq<char>, ValueView>>,
    name: Seq<char>,
    value: ValueView,
)
    requires
        scopes.len() > 0,
        !scopes.last().contains_key(name),
        lookup(scopes.drop_last(), name) is Some,
    ensures
        assigned(scopes, name, value) is Some,
        assigned(scopes, name, value)->0.last() == scopes.last(),
        lookup(assigned(scopes, name, value)->0.drop_last(), name) == Some(value),
        assigned(scopes, name, value)->0.drop_last() == assigned(
            scopes.drop_last(),
            name,
            value,
        )->0,
{
    let outer = scopes.drop_last();
    resolve_finds_innermost(outer, name);
    assignment_declares_nothing(outer, name, value);
    let i = resolve(outer, name)->0;
    assert(scopes[i] == outer[i]);
    assert(assigned(scopes, name, value)->0.drop_last() =~= assigned(outer, name, value)->0);
}

} // verus!
