use crate::frontend::ast::{
    clone_params, lemma_view_kind, view_all, view_params, Expr, ExprView, Operator,
};
use crate::text::same_text;
use vstd::pervasive::unreached;
use vstd::prelude::*;

verus! {

/// What a name is bound to.
#[derive(Debug)]
pub enum SymbolInfo {
    Variable { typ: String },
    Function { ret_type: String, param_types: Vec<(String, String)> },
    Boolean { value: bool },
}

/// The mathematical value of a binding.
pub enum SymbolView {
    Variable { typ: Seq<char> },
    Function { ret_type: Seq<char>, param_types: Seq<(Seq<char>, Seq<char>)> },
    Boolean { value: bool },
}

impl View for SymbolInfo {
    type V = SymbolView;

    open spec fn view(&self) -> SymbolView {
        match self {
            SymbolInfo::Variable { typ } => SymbolView::Variable { typ: typ@ },
            SymbolInfo::Function { ret_type, param_types } => SymbolView::Function {
                ret_type: ret_type@,
                param_types: view_params(param_types@),
            },
            SymbolInfo::Boolean { value } => SymbolView::Boolean { value: *value },
        }
    }
}

impl Clone for SymbolInfo {
    /// A copy with the same view.
    fn clone(&self) -> (out: Self)
        ensures
            out@ == self@,
    {
        match self {
            SymbolInfo::Variable { typ } => SymbolInfo::Variable { typ: typ.clone() },
            SymbolInfo::Function { ret_type, param_types } => SymbolInfo::Function {
                ret_type: ret_type.clone(),
                param_types: clone_params(param_types),
            },
            SymbolInfo::Boolean { value } => SymbolInfo::Boolean { value: *value },
        }
    }
}

/// An unused classification of the two roles a type name plays in a function.
#[derive(Clone)]
pub enum Func {
    RetTyp(String),
    ParamType(String),
}

/// One binding of a scope: a name and what it stands for.
struct Binding {
    name: String,
    info: SymbolInfo,
}

/// The bindings of one scope as a mapping from names.
pub type ScopeView = Map<Seq<char>, SymbolView>;

/// The scopes of a table, the global scope first and the current scope last.
pub type TableView = Seq<ScopeView>;

/// A scope as a mapping: of several bindings of one name the latest counts.
spec fn scope_view(bindings: Seq<Binding>) -> ScopeView
    decreases bindings.len(),
{
    if bindings.len() == 0 {
        Map::empty()
    } else {
        scope_view(bindings.drop_last()).insert(bindings.last().name@, bindings.last().info@)
    }
}

/// The table after `name` is bound to `info` in the current scope. An earlier
/// binding of `name` in that scope is replaced.
pub open spec fn declare(t: TableView, name: Seq<char>, info: SymbolView) -> TableView {
    if t.len() == 0 {
        t
    } else {
        t.update(t.len() - 1, t.last().insert(name, info))
    }
}

/// What `name` is bound to in the current scope, if anything.
pub open spec fn resolve_current(t: TableView, name: Seq<char>) -> Option<SymbolView> {
    if t.len() == 0 {
        None
    } else {
        t.last().get(name)
    }
}

/// What `name` is bound to in the innermost scope that binds it.
pub open spec fn resolve(t: TableView, name: Seq<char>) -> Option<SymbolView>
    decreases t.len(),
{
    if t.len() == 0 {
        None
    } else if t.last().contains_key(name) {
        Some(t.last()[name])
    } else {
        resolve(t.drop_last(), name)
    }
}

/// The type that `name` stands for: a variable's type, a function's return
/// type, and the text `{}` for a boolean constant.
pub open spec fn type_of_name(t: TableView, name: Seq<char>) -> Option<Seq<char>> {
    match resolve(t, name) {
        Some(SymbolView::Variable { typ }) => Some(typ),
        Some(SymbolView::Function { ret_type, .. }) => Some(ret_type),
        Some(SymbolView::Boolean { .. }) => Some("{}"@),
        None => None,
    }
}

/// The value of the boolean constant `name`, looked for from the current scope
/// outward. Scopes that bind `name` to something else are passed over.
pub open spec fn bool_value(t: TableView, name: Seq<char>) -> Option<bool>
    decreases t.len(),
{
    if t.len() == 0 {
        None
    } else {
        match t.last().get(name) {
            Some(SymbolView::Boolean { value }) => Some(value),
            _ => bool_value(t.drop_last(), name),
        }
    }
}

/// The table after every global binding is copied into the current scope,
/// over whatever the current scope bound those names to.
pub open spec fn import_globals(t: TableView) -> TableView {
    if t.len() == 0 {
        t
    } else {
        t.update(t.len() - 1, t.last().union_prefer_right(t[0]))
    }
}

/// The message for a name that no scope binds to a boolean constant.
pub open spec fn boolean_not_found(name: Seq<char>) -> Seq<char> {
    "Boolean '"@ + name + "' not found in any scope"@
}

/// The message for a name that no scope binds.
pub open spec fn variable_not_found(name: Seq<char>) -> Seq<char> {
    "Variable '"@ + name + "' not found in any scope"@
}

/// The view of an optional reference to a binding.
pub open spec fn info_view(found: Option<&SymbolInfo>) -> Option<SymbolView> {
    match found {
        Some(info) => Some(info@),
        None => None,
    }
}

/// The view of a text result.
pub open spec fn text_result_view(r: Result<String, String>) -> Result<Seq<char>, Seq<char>> {
    match r {
        Ok(text) => Ok(text@),
        Err(message) => Err(message@),
    }
}

/// A name bound at `i` and at no later place is bound to what stands at `i`.
proof fn lemma_latest_binding(bindings: Seq<Binding>, name: Seq<char>, i: int)
    requires
        0 <= i < bindings.len(),
        bindings[i].name@ == name,
        forall|j: int| i < j < bindings.len() ==> bindings[j].name@ != name,
    ensures
        scope_view(bindings).contains_key(name),
        scope_view(bindings)[name] == bindings[i].info@,
    decreases bindings.len(),
{
    if i < bindings.len() - 1 {
        lemma_latest_binding(bindings.drop_last(), name, i);
    }
}

/// A name bound nowhere in a scope is no key of its mapping.
proof fn lemma_unbound(bindings: Seq<Binding>, name: Seq<char>)
    requires
        forall|j: int| 0 <= j < bindings.len() ==> bindings[j].name@ != name,
    ensures
        !scope_view(bindings).contains_key(name),
    decreases bindings.len(),
{
    if bindings.len() > 0 {
        lemma_unbound(bindings.drop_last(), name);
    }
}

/// Scopes whose bindings agree in name and in view, place by place, are the
/// same mapping.
proof fn lemma_scope_views(a: Seq<Binding>, b: Seq<Binding>)
    requires
        a.len() == b.len(),
        forall|j: int| 0 <= j < a.len() ==> a[j].name@ == b[j].name@ && a[j].info@ == b[j].info@,
    ensures
        scope_view(a) == scope_view(b),
    decreases a.len(),
{
    if a.len() > 0 {
        lemma_scope_views(a.drop_last(), b.drop_last());
    }
}

/// Appending bindings to a scope overlays their mapping on the scope's.
proof fn lemma_scope_append(a: Seq<Binding>, b: Seq<Binding>)
    ensures
        scope_view(a + b) == scope_view(a).union_prefer_right(scope_view(b)),
    decreases b.len(),
{
    if b.len() == 0 {
        assert(a + b =~= a);
        assert(scope_view(a) =~= scope_view(a).union_prefer_right(scope_view(b)));
    } else {
        lemma_scope_append(a, b.drop_last());
        assert((a + b).drop_last() =~= a + b.drop_last());
        assert(scope_view(a + b) =~= scope_view(a).union_prefer_right(scope_view(b)));
    }
}

/// The place of the latest binding of `name` in a scope.
fn find(bindings: &Vec<Binding>, name: &str) -> (place: Option<usize>)
    ensures
        match place {
            Some(i) => i < bindings.len() && scope_view(bindings@).get(name@) == Some(
                bindings[i as int].info@,
            ),
            None => scope_view(bindings@).get(name@).is_none(),
        },
{
    let mut i: usize = bindings.len();
    while i > 0
        invariant
            i <= bindings.len(),
            forall|j: int| i <= j < bindings.len() ==> bindings[j].name@ != name@,
        decreases i,
    {
        i -= 1;
        if crate::text::same_text(bindings[i].name.as_str(), name) {
            proof {
                lemma_latest_binding(bindings@, name@, i as int);
            }
            return Some(i);
        }
    }
    proof {
        lemma_unbound(bindings@, name@);
    }
    None
}

/// A stack of scopes: the global scope, which is always there, and above it
/// the scopes that were entered and not yet left.
pub struct SymbolTable {
    global: Vec<Binding>,
    nested: Vec<Vec<Binding>>,
}

impl View for SymbolTable {
    type V = TableView;

    closed spec fn view(&self) -> TableView {
        seq![scope_view(self.global@)] + Seq::new(
            self.nested@.len(),
            |i: int| scope_view(self.nested@[i]@),
        )
    }
}

impl SymbolTable {
    /// A table always holds its global scope.
    pub proof fn lemma_depth(&self)
        ensures
            self@.len() >= 1,
    {
    }

    /// A table with an empty global scope and nothing above it.
    pub fn new() -> (table: Self)
        ensures
            table@ == seq![Map::<Seq<char>, SymbolView>::empty()],
    {
        let table = SymbolTable { global: Vec::new(), nested: Vec::new() };
        assert(table@ =~= seq![Map::<Seq<char>, SymbolView>::empty()]);
        table
    }

    /// The scope at `depth`: the global scope is at depth 0.
    fn scope_at(&self, depth: usize) -> (scope: &Vec<Binding>)
        requires
            depth < self@.len(),
        ensures
            scope_view(scope@) == self@[depth as int],
    {
        if depth == 0 {
            &self.global
        } else {
            &self.nested[depth - 1]
        }
    }

    /// The depth of the current scope: the number of scopes above the global one.
    fn top_depth(&self) -> (depth: usize)
        ensures
            depth == self@.len() - 1,
    {
        self.nested.len()
    }

    /// Binds `name` in the current scope.
    fn bind(&mut self, name: String, info: SymbolInfo)
        ensures
            final(self)@ == declare(old(self)@, name@, info@),
    {
        let ghost before = self@;
        let above = self.nested.len();
        if above == 0 {
            let ghost scope = self.global@;
            self.global.push(Binding { name, info });
            proof {
                assert(self.global@.drop_last() =~= scope);
            }
        } else {
            let ghost scope = self.nested@[above - 1]@;
            let mut top = self.nested.pop().unwrap();
            top.push(Binding { name, info });
            proof {
                assert(top@.drop_last() =~= scope);
            }
            self.nested.push(top);
        }
        assert(self@ =~= declare(before, name@, info@));
    }

    /// Binds `name` to a boolean constant in the current scope.
    pub fn declare_boolean(&mut self, name: String, value: bool)
        ensures
            final(self)@ == declare(old(self)@, name@, SymbolView::Boolean { value }),
    {
        self.bind(name, SymbolInfo::Boolean { value });
    }

    /// The value of the boolean constant `name`, looked for from the current
    /// scope outward, or a message that names it.
    pub fn get_bool_value(&self, name: &str) -> (found: Result<bool, String>)
        ensures
            match found {
                Ok(value) => bool_value(self@, name@) == Some(value),
                Err(message) => bool_value(self@, name@).is_none() && message@ == boolean_not_found(
                    name@,
                ),
            },
    {
        let mut depth = self.top_depth();
        assert(self@.take(depth + 1) =~= self@);
        loop
            invariant
                depth < self@.len(),
                bool_value(self@, name@) == bool_value(self@.take(depth + 1), name@),
            ensures
                bool_value(self@, name@).is_none(),
            decreases depth,
        {
            let scope = self.scope_at(depth);
            if let Some(place) = find(scope, name) {
                if let SymbolInfo::Boolean { value } = &scope[place].info {
                    return Ok(*value);
                }
            }
            proof {
                let upto = self@.take(depth + 1);
                assert(self@.take(depth as int) =~= upto.drop_last());
                assert(upto.last() == self@[depth as int]);
                assert(bool_value(upto, name@) == bool_value(upto.drop_last(), name@));
            }
            if depth == 0 {
                break ;
            }
            depth -= 1;
        }
        let mut message = String::from_str("Boolean '");
        message.append(name);
        message.append("' not found in any scope");
        Err(message)
    }

    /// The type that `var_name` stands for in the innermost scope that binds
    /// it, or a message that names it.
    pub fn get_type(&self, var_name: &str) -> (found: Result<String, String>)
        ensures
            match found {
                Ok(typ) => type_of_name(self@, var_name@) == Some(typ@),
                Err(message) => type_of_name(self@, var_name@).is_none() && message@
                    == variable_not_found(var_name@),
            },
    {
        match self.lookup(var_name) {
            Some(SymbolInfo::Variable { typ }) => Ok(typ.clone()),
            Some(SymbolInfo::Function { ret_type, .. }) => Ok(ret_type.clone()),
            Some(SymbolInfo::Boolean { .. }) => Ok(String::from_str("{}")),
            None => {
                let mut message = String::from_str("Variable '");
                message.append(var_name);
                message.append("' not found in any scope");
                Err(message)
            },
        }
    }

    /// Enters a new, empty scope, which becomes the current one.
    pub(crate) fn enter_scope(&mut self)
        ensures
            final(self)@ == old(self)@.push(Map::empty()),
    {
        self.nested.push(Vec::new());
        assert(self@ =~= old(self)@.push(Map::empty()));
    }

    /// What `name` is bound to in the current scope, if anything.
    pub fn lookup_current_scope(&self, name: &str) -> (found: Option<&SymbolInfo>)
        ensures
            info_view(found) == resolve_current(self@, name@),
    {
        let scope = self.scope_at(self.top_depth());
        match find(scope, name) {
            Some(place) => Some(&scope[place].info),
            None => None,
        }
    }

    /// Leaves the current scope, which must not be the global one.
    pub(crate) fn exit_scope(&mut self)
        requires
            old(self)@.len() >= 2,
        ensures
            final(self)@ == old(self)@.drop_last(),
    {
        self.nested.pop();
        assert(self@ =~= old(self)@.drop_last());
    }

    /// Binds `name` to a variable of the type `typ` in the current scope.
    pub fn declare_variable(&mut self, name: String, typ: String)
        ensures
            final(self)@ == declare(old(self)@, name@, SymbolView::Variable { typ: typ@ }),
    {
        self.bind(name, SymbolInfo::Variable { typ });
    }

    /// Binds `name` to a function in the current scope.
    pub fn declare_function(
        &mut self,
        name: String,
        ret_type: String,
        param_types: Vec<(String, String)>,
    )
        ensures
            final(self)@ == declare(
                old(self)@,
                name@,
                SymbolView::Function { ret_type: ret_type@, param_types: view_params(param_types@) },
            ),
    {
        self.bind(name, SymbolInfo::Function { ret_type, param_types });
    }

    /// What `name` is bound to in the innermost scope that binds it, if any
    /// scope does.
    pub fn lookup(&self, name: &str) -> (found: Option<&SymbolInfo>)
        ensures
            info_view(found) == resolve(self@, name@),
    {
        let mut depth = self.top_depth();
        assert(self@.take(depth + 1) =~= self@);
        loop
            invariant
                depth < self@.len(),
                resolve(self@, name@) == resolve(self@.take(depth + 1), name@),
            decreases depth,
        {
            let scope = self.scope_at(depth);
            if let Some(place) = find(scope, name) {
                return Some(&scope[place].info);
            }
            proof {
                assert(self@.take(depth as int) =~= self@.take(depth + 1).drop_last());
                assert(resolve(self@, name@) == resolve(self@.take(depth as int), name@));
            }
            if depth == 0 {
                return None;
            }
            depth -= 1;
        }
    }

    /// Copies every binding of the global scope into the current scope.
    pub fn add_fncs_g_variables(&mut self)
        ensures
            final(self)@ == import_globals(old(self)@),
    {
        let ghost before = self@;
        if self.nested.len() == 0 {
            assert(before[0].union_prefer_right(before[0]) =~= before[0]);
            assert(self@ =~= import_globals(before));
            return ;
        }
        let mut top = self.nested.pop().unwrap();
        let ghost scope = top@;
        let ghost below = self.nested@;
        let mut i: usize = 0;
        while i < self.global.len()
            invariant
                i <= self.global.len(),
                self.global == old(self).global,
                self.nested@ == below,
                top@.len() == scope.len() + i,
                top@.take(scope.len() as int) == scope,
                forall|j: int|
                    0 <= j < i ==> (#[trigger] top@[scope.len() + j]).name@ == self.global@[j].name@
                        && top@[scope.len() + j].info@ == self.global@[j].info@,
            decreases self.global.len() - i,
        {
            let copy = Binding {
                name: self.global[i].name.clone(),
                info: self.global[i].info.clone(),
            };
            top.push(copy);
            assert(top@.take(scope.len() as int) =~= scope);
            i += 1;
        }
        proof {
            let copies = top@.skip(scope.len() as int);
            assert(top@ =~= scope + copies);
            assert forall|j: int| 0 <= j < copies.len() implies copies[j].name@
                == self.global@[j].name@ && copies[j].info@ == self.global@[j].info@ by {
                assert(copies[j] == top@[scope.len() + j]);
            }
            lemma_scope_views(copies, self.global@);
            lemma_scope_append(scope, copies);
        }
        self.nested.push(top);
        assert(self@ =~= import_globals(before));
    }
}

/// What the analysis of a piece of syntax yields: its type or the first
/// error, and the table as the analysis leaves it.
pub struct Analysis {
    pub result: Result<Seq<char>, Seq<char>>,
    pub table: TableView,
}

/// The message for the use of a name that no scope binds.
pub open spec fn undefined_variable(name: Seq<char>) -> Seq<char> {
    "Undefined variable '"@ + name + "'"@
}

/// The message for a variable declared where the current scope binds its name.
pub open spec fn variable_redeclared(name: Seq<char>) -> Seq<char> {
    "Variable '"@ + name + "' already declared"@
}

/// The message for a function defined where the current scope binds its name.
pub open spec fn function_redeclared(name: Seq<char>) -> Seq<char> {
    "Function '"@ + name + "' already declared"@
}

/// The message for a call of a name that no scope binds.
pub open spec fn undeclared_function(name: Seq<char>) -> Seq<char> {
    "Function '"@ + name + "' isn't declared"@
}

/// The message for an assignment of a value of the type `found` to a
/// variable of the type `expected`.
pub open spec fn assignment_mismatch(found: Seq<char>, expected: Seq<char>) -> Seq<char> {
    "Type mismatch in assignment: "@ + found + " to "@ + expected
}

/// The message for an initial value of the type `found` for a variable
/// declared with the type `expected`.
pub open spec fn initializer_mismatch(expected: Seq<char>, found: Seq<char>) -> Seq<char> {
    "Type mismatch in variable declaration with assignment: expected '"@ + expected
        + "', found '"@ + found + "'"@
}

/// The message for a function whose body ends in a `return` of the type
/// `found` where `expected` was declared.
pub open spec fn return_mismatch(name: Seq<char>, expected: Seq<char>, found: Seq<char>) -> Seq<
    char,
> {
    "Return type mismatch in function '"@ + name + "': expected '"@ + expected + "', found '"@
        + found + "'"@
}

/// The message for a function that is declared to return `expected` and
/// whose body, of the type `found`, does not end in a `return`.
pub open spec fn return_missing(name: Seq<char>, expected: Seq<char>, found: Seq<char>) -> Seq<
    char,
> {
    "Return in function '"@ + name + "' not specified : expected '"@ + expected + "', found '"@
        + found + "'"@
}

/// The message for a function whose body is no block of statements.
pub open spec fn body_not_block(name: Seq<char>) -> Seq<char> {
    "Function '"@ + name + "' body must be a block of statements"@
}

/// The message for a condition of the type `found`.
pub open spec fn condition_not_bool(found: Seq<char>) -> Seq<char> {
    "Expected condition to be bool, found "@ + found
}

/// The type of a binary operation on operands of the types `left` and
/// `right`: the operands must agree; arithmetic is on integers and gives an
/// integer; a comparison gives a boolean.
pub open spec fn binary_type(op: Operator, left: Seq<char>, right: Seq<char>) -> Result<
    Seq<char>,
    Seq<char>,
> {
    if left != right {
        Err("Type mismatch in binary operation"@)
    } else if op.is_arithmetic() {
        if left == "integer"@ {
            Ok("integer"@)
        } else {
            Err("Not supported operation"@)
        }
    } else {
        Ok("bool"@)
    }
}

/// The table after the first `n` parameters are declared as variables.
pub open spec fn declare_params(t: TableView, params: Seq<(Seq<char>, Seq<char>)>, n: nat) -> TableView
    decreases n,
{
    if n == 0 || n > params.len() {
        t
    } else {
        declare(
            declare_params(t, params, (n - 1) as nat),
            params[n - 1].0,
            SymbolView::Variable { typ: params[n - 1].1 },
        )
    }
}

/// Whether a function body ends in a `return`. `None` for a body that is no
/// block of statements.
pub open spec fn ends_in_return(body: ExprView) -> Option<bool> {
    match body {
        ExprView::Statements(stmts) => Some(stmts.len() > 0 && stmts.last() is Return),
        _ => None,
    }
}

/// The verdict on a function whose body has the type `body_type`: a body
/// that ends in a `return` must have the declared return type, and one that
/// does not needs the return type `void`.
pub open spec fn function_type(
    name: Seq<char>,
    ret: Seq<char>,
    body: ExprView,
    body_type: Seq<char>,
) -> Result<Seq<char>, Seq<char>> {
    match ends_in_return(body) {
        Some(true) => if body_type != ret {
            Err(return_mismatch(name, ret, body_type))
        } else {
            Ok(ret)
        },
        Some(false) => if ret != "void"@ {
            Err(return_missing(name, ret, body_type))
        } else {
            Ok(ret)
        },
        None => Err(body_not_block(name)),
    }
}

/// The type of a piece of syntax under a table, or the first error found,
/// together with the table afterwards. An error ends the analysis where it
/// is found, so the scopes entered by then stay on the table.
pub open spec fn analyze(e: ExprView, t: TableView) -> Analysis
    decreases e, 0nat,
{
    match e {
        ExprView::Number(_) => Analysis { result: Ok("integer"@), table: t },
        ExprView::Boolean(_) => Analysis { result: Ok("bool"@), table: t },
        ExprView::String(_) => Analysis { result: Ok("string"@), table: t },
        ExprView::Semicolon(_) => Analysis { result: Ok("void"@), table: t },
        ExprView::PrintStr(_) => Analysis { result: Ok("void"@), table: t },
        ExprView::Print(_) => Analysis { result: Ok("void"@), table: t },
        ExprView::Variable(name) => match type_of_name(t, name) {
            Some(typ) => Analysis { result: Ok(typ), table: t },
            None => Analysis { result: Err(undefined_variable(name)), table: t },
        },
        ExprView::FuncCall(name, _) => if resolve(t, name).is_some() {
            Analysis { result: Ok("integer"@), table: t }
        } else {
            Analysis { result: Err(undeclared_function(name)), table: t }
        },
        ExprView::VarDeclaration(name, typ) => if resolve_current(t, name).is_some() {
            Analysis { result: Err(variable_redeclared(name)), table: t }
        } else {
            Analysis { result: Ok(typ), table: declare(t, name, SymbolView::Variable { typ }) }
        },
        ExprView::VarDeclarationWithAssignment(name, typ, init) => if resolve_current(
            t,
            name,
        ).is_some() {
            Analysis { result: Err(variable_redeclared(name)), table: t }
        } else {
            let value = analyze(*init, t);
            match value.result {
                Err(_) => value,
                Ok(found) => if found == typ {
                    Analysis {
                        result: Ok(typ),
                        table: declare(value.table, name, SymbolView::Variable { typ }),
                    }
                } else {
                    Analysis { result: Err(initializer_mismatch(typ, found)), table: value.table }
                },
            }
        },
        ExprView::Binary(l, op, r) => {
            let left = analyze(*l, t);
            match left.result {
                Err(_) => left,
                Ok(left_type) => {
                    let right = analyze(*r, left.table);
                    match right.result {
                        Err(_) => right,
                        Ok(right_type) => Analysis {
                            result: binary_type(op, left_type, right_type),
                            table: right.table,
                        },
                    }
                },
            }
        },
        ExprView::Assign(target, value) => match *target {
            ExprView::Variable(name) => match type_of_name(t, name) {
                None => Analysis { result: Err(variable_not_found(name)), table: t },
                Some(expected) => {
                    let assigned = analyze(*value, t);
                    match assigned.result {
                        Err(_) => assigned,
                        Ok(found) => if found == expected {
                            Analysis { result: Ok(expected), table: assigned.table }
                        } else {
                            Analysis {
                                result: Err(assignment_mismatch(found, expected)),
                                table: assigned.table,
                            }
                        },
                    }
                },
            },
            _ => Analysis { result: Err("Left-hand side must be a variable"@), table: t },
        },
        ExprView::Return(value) => analyze(*value, t),
        ExprView::Statements(stmts) => analyze_upto(stmts, stmts.len(), t),
        ExprView::Program(stmts) => analyze_upto(stmts, stmts.len(), t),
        ExprView::If(cond, then_branch, els) => {
            let tested = analyze(*cond, t);
            match tested.result {
                Err(_) => tested,
                Ok(cond_type) => if cond_type != "bool"@ {
                    Analysis { result: Err(condition_not_bool(cond_type)), table: tested.table }
                } else {
                    let taken = analyze(*then_branch, tested.table);
                    match (taken.result, els) {
                        (Err(_), _) => taken,
                        (Ok(_), None) => taken,
                        (Ok(then_type), Some(branch)) => {
                            let other = analyze(*branch, taken.table);
                            match other.result {
                                Err(_) => other,
                                Ok(_) => Analysis { result: Ok(then_type), table: other.table },
                            }
                        },
                    }
                },
            }
        },
        ExprView::While(cond, body) => {
            let tested = analyze(*cond, t);
            match tested.result {
                Err(_) => tested,
                Ok(cond_type) => if cond_type != "bool"@ {
                    Analysis { result: Err(condition_not_bool(cond_type)), table: tested.table }
                } else {
                    let looped = analyze(*body, tested.table);
                    match looped.result {
                        Err(_) => looped,
                        Ok(_) => Analysis { result: Ok("void"@), table: looped.table },
                    }
                },
            }
        },
        ExprView::FuncDef(name, ret, params, body) => if resolve_current(t, name).is_some() {
            Analysis { result: Err(function_redeclared(name)), table: t }
        } else {
            let declared = declare(
                t,
                name,
                SymbolView::Function { ret_type: ret, param_types: params },
            );
            let entered = declare_params(declared.push(Map::empty()), params, params.len());
            let inner = analyze(*body, entered);
            match inner.result {
                Err(_) => inner,
                Ok(body_type) => match function_type(name, ret, *body, body_type) {
                    Err(message) => Analysis { result: Err(message), table: inner.table },
                    Ok(typ) => Analysis { result: Ok(typ), table: inner.table.drop_last() },
                },
            }
        },
        ExprView::MainFuncDef(body) => if resolve_current(t, "main"@).is_some() {
            Analysis { result: Err("Main function already declared"@), table: t }
        } else {
            let declared = declare(
                t,
                "main"@,
                SymbolView::Function { ret_type: "void"@, param_types: Seq::empty() },
            );
            let inner = analyze(*body, import_globals(declared.push(Map::empty())));
            match inner.result {
                Err(_) => inner,
                Ok(_) => Analysis { result: Ok("void"@), table: inner.table.drop_last() },
            }
        },
    }
}

/// The analysis of the first `n` statements of a list, in order. The type is
/// that of the last of them, and the empty text when there is none.
pub open spec fn analyze_upto(stmts: Seq<ExprView>, n: nat, t: TableView) -> Analysis
    decreases stmts, n,
{
    if n == 0 || n > stmts.len() {
        Analysis { result: Ok(Seq::empty()), table: t }
    } else {
        let before = analyze_upto(stmts, (n - 1) as nat, t);
        match before.result {
            Err(_) => before,
            Ok(_) => analyze(stmts[n - 1], before.table),
        }
    }
}

/// Whether a call left the result and the table that `expected` describes.
/// A successful analysis leaves as many scopes as it found.
pub open spec fn analyzed(
    expected: Analysis,
    found: Result<String, String>,
    before: TableView,
    after: TableView,
) -> bool {
    &&& text_result_view(found) == expected.result
    &&& after == expected.table
    &&& found is Ok ==> after.len() == before.len()
}

fn ok_text(text: &str) -> (found: Result<String, String>)
    ensures
        text_result_view(found) == Ok::<Seq<char>, Seq<char>>(text@),
{
    Ok(String::from_str(text))
}

fn err_text(text: &str) -> (found: Result<String, String>)
    ensures
        text_result_view(found) == Err::<Seq<char>, Seq<char>>(text@),
{
    Err(String::from_str(text))
}

fn join2(a: &str, b: &str) -> (text: String)
    ensures
        text@ == a@ + b@,
{
    let mut text = String::from_str(a);
    text.append(b);
    text
}

fn join3(a: &str, b: &str, c: &str) -> (text: String)
    ensures
        text@ == a@ + b@ + c@,
{
    let mut text = join2(a, b);
    text.append(c);
    text
}

fn join4(a: &str, b: &str, c: &str, d: &str) -> (text: String)
    ensures
        text@ == a@ + b@ + c@ + d@,
{
    let mut text = join3(a, b, c);
    text.append(d);
    text
}

fn join5(a: &str, b: &str, c: &str, d: &str, e: &str) -> (text: String)
    ensures
        text@ == a@ + b@ + c@ + d@ + e@,
{
    let mut text = join4(a, b, c, d);
    text.append(e);
    text
}

fn join7(a: &str, b: &str, c: &str, d: &str, e: &str, f: &str, g: &str) -> (text: String)
    ensures
        text@ == a@ + b@ + c@ + d@ + e@ + f@ + g@,
{
    let mut text = join5(a, b, c, d, e);
    text.append(f);
    text.append(g);
    text
}

/// Once a statement fails, the analysis of the list is that failure.
proof fn lemma_upto_error(stmts: Seq<ExprView>, i: nat, n: nat, t: TableView)
    requires
        i <= n <= stmts.len(),
        analyze_upto(stmts, i, t).result is Err,
    ensures
        analyze_upto(stmts, n, t) == analyze_upto(stmts, i, t),
    decreases n,
{
    if i < n {
        lemma_upto_error(stmts, i, (n - 1) as nat, t);
    }
}

/// Analyses a list of statements in order, up to the first that fails.
fn analyze_statements(stmts: &Vec<Expr>, sym_table: &mut SymbolTable) -> (found: Result<
    String,
    String,
>)
    ensures
        analyzed(
            analyze_upto(view_all(stmts@), stmts@.len(), old(sym_table)@),
            found,
            old(sym_table)@,
            final(sym_table)@,
        ),
    decreases stmts, 0nat,
{
    let ghost vs = view_all(stmts@);
    let ghost t0 = sym_table@;
    let mut last_type = String::new();
    let mut i: usize = 0;
    while i < stmts.len()
        invariant
            i <= stmts.len(),
            vs == view_all(stmts@),
            t0 == old(sym_table)@,
            analyzed(analyze_upto(vs, i as nat, t0), Ok(last_type), t0, sym_table@),
        decreases stmts.len() - i,
    {
        assert(vs[i as int] == stmts[i as int]@);
        match semantic_analysis(&stmts[i], sym_table) {
            Ok(typ) => {
                last_type = typ;
            },
            Err(message) => {
                proof {
                    assert(analyze_upto(vs, (i + 1) as nat, t0).result is Err);
                    lemma_upto_error(vs, (i + 1) as nat, stmts@.len(), t0);
                }
                return Err(message);
            },
        }
        i += 1;
    }
    Ok(last_type)
}

/// Checks the entry function: it is declared once, and its body is analysed
/// in a scope of its own that starts with a copy of the global bindings.
fn check_main(ast: &Expr, sym_table: &mut SymbolTable) -> (found: Result<String, String>)
    requires
        ast is MainFuncDef,
    ensures
        analyzed(analyze(ast@, old(sym_table)@), found, old(sym_table)@, final(sym_table)@),
    decreases ast, 0nat,
{
    let Expr::MainFuncDef(statements) = ast else {
        return unreached();
    };
    if sym_table.lookup_current_scope("main").is_some() {
        return err_text("Main function already declared");
    }
    sym_table.declare_function(String::from_str("main"), String::from_str("void"), Vec::new());
    proof {
        assert(view_params(Seq::<(String, String)>::empty()) =~= Seq::empty());
    }
    sym_table.enter_scope();
    sym_table.add_fncs_g_variables();
    match semantic_analysis(statements, sym_table) {
        Ok(_) => {
            sym_table.exit_scope();
            ok_text("void")
        },
        Err(message) => Err(message),
    }
}

/// Checks a binary operation: both operands, then their types against the operator.
fn check_binary(ast: &Expr, sym_table: &mut SymbolTable) -> (found: Result<String, String>)
    requires
        ast is Binary,
    ensures
        analyzed(analyze(ast@, old(sym_table)@), found, old(sym_table)@, final(sym_table)@),
    decreases ast, 0nat,
{
    let Expr::Binary(left, op, right) = ast else {
        return unreached();
    };
    let left_type = match semantic_analysis(left, sym_table) {
        Ok(typ) => typ,
        Err(message) => {
            return Err(message);
        },
    };
    let right_type = match semantic_analysis(right, sym_table) {
        Ok(typ) => typ,
        Err(message) => {
            return Err(message);
        },
    };
    if same_text(left_type.as_str(), right_type.as_str()) {
        match op {
            Operator::Add | Operator::Subtract | Operator::Multiply | Operator::Divide => {
                if same_text(left_type.as_str(), "integer") {
                    ok_text("integer")
                } else {
                    err_text("Not supported operation")
                }
            },
            _ => ok_text("bool"),
        }
    } else {
        err_text("Type mismatch in binary operation")
    }
}

/// Checks an assignment: the target is a variable, and the value has its type.
fn check_assign(ast: &Expr, sym_table: &mut SymbolTable) -> (found: Result<String, String>)
    requires
        ast is Assign,
    ensures
        analyzed(analyze(ast@, old(sym_table)@), found, old(sym_table)@, final(sym_table)@),
    decreases ast, 0nat,
{
    let Expr::Assign(lhs, rhs) = ast else {
        return unreached();
    };
    proof {
        lemma_view_kind(**lhs);
    }
    let Expr::Variable(var_name) = &**lhs else {
        return err_text("Left-hand side must be a variable");
    };
    let var_type = match sym_table.get_type(var_name.as_str()) {
        Ok(typ) => typ,
        Err(message) => {
            return Err(message);
        },
    };
    let expr_type = match semantic_analysis(rhs, sym_table) {
        Ok(typ) => typ,
        Err(message) => {
            return Err(message);
        },
    };
    if same_text(var_type.as_str(), expr_type.as_str()) {
        Ok(var_type)
    } else {
        Err(
            join4(
                "Type mismatch in assignment: ",
                expr_type.as_str(),
                " to ",
                var_type.as_str(),
            ),
        )
    }
}

/// Checks a declaration with an initial value: the name is new in the
/// current scope, and the value has the declared type.
fn check_initialized(ast: &Expr, sym_table: &mut SymbolTable) -> (found: Result<String, String>)
    requires
        ast is VarDeclarationWithAssignment,
    ensures
        analyzed(analyze(ast@, old(sym_table)@), found, old(sym_table)@, final(sym_table)@),
    decreases ast, 0nat,
{
    let Expr::VarDeclarationWithAssignment(name, typ, expr) = ast else {
        return unreached();
    };
    if sym_table.lookup_current_scope(name.as_str()).is_some() {
        return Err(join3("Variable '", name.as_str(), "' already declared"));
    }
    let expr_type = match semantic_analysis(expr, sym_table) {
        Ok(found) => found,
        Err(message) => {
            return Err(message);
        },
    };
    if same_text(expr_type.as_str(), typ.as_str()) {
        sym_table.declare_variable(name.clone(), typ.clone());
        Ok(typ.clone())
    } else {
        Err(
            join5(
                "Type mismatch in variable declaration with assignment: expected '",
                typ.as_str(),
                "', found '",
                expr_type.as_str(),
                "'",
            ),
        )
    }
}

/// Whether a function body ends in a `return`; `None` for a body that is no
/// block of statements.
fn body_ends_in_return(body: &Expr) -> (ends: Option<bool>)
    ensures
        ends == ends_in_return(body@),
{
    proof {
        lemma_view_kind(*body);
    }
    match body {
        Expr::Statements(statements) => {
            if statements.len() == 0 {
                Some(false)
            } else {
                let last = &statements[statements.len() - 1];
                proof {
                    lemma_view_kind(*last);
                    assert(view_all(statements@).last() == last@);
                }
                match last {
                    Expr::Return(_) => Some(true),
                    _ => Some(false),
                }
            }
        },
        _ => None,
    }
}

/// Checks a function definition: the name is new in the current scope; the
/// body is analysed in a scope of its own that holds the parameters; and the
/// type of the body agrees with the declared return type.
fn check_func_def(ast: &Expr, sym_table: &mut SymbolTable) -> (found: Result<String, String>)
    requires
        ast is FuncDef,
    ensures
        analyzed(analyze(ast@, old(sym_table)@), found, old(sym_table)@, final(sym_table)@),
    decreases ast, 0nat,
{
    let Expr::FuncDef(name, ret_typ, params, body) = ast else {
        return unreached();
    };
    if sym_table.lookup_current_scope(name.as_str()).is_some() {
        return Err(join3("Function '", name.as_str(), "' already declared"));
    }
    sym_table.declare_function(name.clone(), ret_typ.clone(), clone_params(params));
    sym_table.enter_scope();
    let ghost entered = sym_table@;
    let ghost ps = view_params(params@);
    let mut i: usize = 0;
    while i < params.len()
        invariant
            i <= params.len(),
            ps == view_params(params@),
            sym_table@ == declare_params(entered, ps, i as nat),
            sym_table@.len() == entered.len(),
        decreases params.len() - i,
    {
        sym_table.declare_variable(params[i].0.clone(), params[i].1.clone());
        i += 1;
    }
    let body_type = match semantic_analysis(body, sym_table) {
        Ok(typ) => typ,
        Err(message) => {
            return Err(message);
        },
    };
    match body_ends_in_return(body) {
        Some(true) => {
            if !same_text(body_type.as_str(), ret_typ.as_str()) {
                return Err(
                    join7(
                        "Return type mismatch in function '",
                        name.as_str(),
                        "': expected '",
                        ret_typ.as_str(),
                        "', found '",
                        body_type.as_str(),
                        "'",
                    ),
                );
            }
        },
        Some(false) => {
            if !same_text(ret_typ.as_str(), "void") {
                return Err(
                    join7(
                        "Return in function '",
                        name.as_str(),
                        "' not specified : expected '",
                        ret_typ.as_str(),
                        "', found '",
                        body_type.as_str(),
                        "'",
                    ),
                );
            }
        },
        None => {
            return Err(join3("Function '", name.as_str(), "' body must be a block of statements"));
        },
    }
    sym_table.exit_scope();
    Ok(ret_typ.clone())
}

/// Checks the condition of an `if` or a `while`: it must be a boolean.
fn check_condition(cond: &Expr, sym_table: &mut SymbolTable) -> (found: Result<(), String>)
    ensures
        final(sym_table)@ == analyze(cond@, old(sym_table)@).table,
        match found {
            Ok(_) => analyze(cond@, old(sym_table)@).result == Ok::<Seq<char>, Seq<char>>("bool"@)
                && final(sym_table)@.len() == old(sym_table)@.len(),
            Err(message) => match analyze(cond@, old(sym_table)@).result {
                Ok(cond_type) => cond_type != "bool"@ && message@ == condition_not_bool(cond_type),
                Err(inner) => message@ == inner,
            },
        },
    decreases cond, 2nat,
{
    match semantic_analysis(cond, sym_table) {
        Ok(cond_type) => {
            if same_text(cond_type.as_str(), "bool") {
                Ok(())
            } else {
                Err(join2("Expected condition to be bool, found ", cond_type.as_str()))
            }
        },
        Err(message) => Err(message),
    }
}

/// Checks a conditional: the condition is a boolean, and both branches are
/// analysed. The type is that of the first branch.
fn check_if(ast: &Expr, sym_table: &mut SymbolTable) -> (found: Result<String, String>)
    requires
        ast is If,
    ensures
        analyzed(analyze(ast@, old(sym_table)@), found, old(sym_table)@, final(sym_table)@),
    decreases ast, 0nat,
{
    let Expr::If(cond, then_branch, els) = ast else {
        return unreached();
    };
    match check_condition(cond, sym_table) {
        Ok(_) => {},
        Err(message) => {
            return Err(message);
        },
    }
    let then_type = match semantic_analysis(then_branch, sym_table) {
        Ok(typ) => typ,
        Err(message) => {
            return Err(message);
        },
    };
    if let Some(els_branch) = els {
        match semantic_analysis(els_branch, sym_table) {
            Ok(_) => {},
            Err(message) => {
                return Err(message);
            },
        }
    }
    Ok(then_type)
}

/// Checks a loop: the condition is a boolean, and the body is analysed.
fn check_while(ast: &Expr, sym_table: &mut SymbolTable) -> (found: Result<String, String>)
    requires
        ast is While,
    ensures
        analyzed(analyze(ast@, old(sym_table)@), found, old(sym_table)@, final(sym_table)@),
    decreases ast, 0nat,
{
    let Expr::While(cond, body) = ast else {
        return unreached();
    };
    match check_condition(cond, sym_table) {
        Ok(_) => {},
        Err(message) => {
            return Err(message);
        },
    }
    match semantic_analysis(body, sym_table) {
        Ok(_) => ok_text("void"),
        Err(message) => Err(message),
    }
}

/// Type-checks a piece of syntax under a table, declaring what it declares.
/// Returns the type, or the message of the first error found.
pub fn semantic_analysis(ast: &Expr, sym_table: &mut SymbolTable) -> (found: Result<String, String>)
    ensures
        analyzed(analyze(ast@, old(sym_table)@), found, old(sym_table)@, final(sym_table)@),
    decreases ast, 1nat,
{
    match ast {
        Expr::MainFuncDef(_) => check_main(ast, sym_table),
        Expr::Number(_) => ok_text("integer"),
        Expr::Variable(name) => {
            match sym_table.get_type(name.as_str()) {
                Ok(typ) => Ok(typ),
                Err(_) => Err(join3("Undefined variable '", name.as_str(), "'")),
            }
        },
        Expr::VarDeclaration(name, typ) => {
            if sym_table.lookup_current_scope(name.as_str()).is_some() {
                Err(join3("Variable '", name.as_str(), "' already declared"))
            } else {
                sym_table.declare_variable(name.clone(), typ.clone());
                Ok(typ.clone())
            }
        },
        Expr::Binary(_, _, _) => check_binary(ast, sym_table),
        Expr::Assign(_, _) => check_assign(ast, sym_table),
        Expr::Boolean(_) => ok_text("bool"),
        Expr::String(_) => ok_text("string"),
        Expr::FuncDef(_, _, _, _) => check_func_def(ast, sym_table),
        Expr::Statements(statements) => analyze_statements(statements, sym_table),
        Expr::Return(expr) => semantic_analysis(expr, sym_table),
        Expr::PrintStr(_) => ok_text("void"),
        Expr::Print(_) => ok_text("void"),
        Expr::FuncCall(name, _) => {
            if sym_table.lookup(name.as_str()).is_none() {
                Err(join3("Function '", name.as_str(), "' isn't declared"))
            } else {
                ok_text("integer")
            }
        },
        Expr::If(_, _, _) => check_if(ast, sym_table),
        Expr::VarDeclarationWithAssignment(_, _, _) => check_initialized(ast, sym_table),
        Expr::Semicolon(_) => ok_text("void"),
        Expr::Program(statements) => analyze_statements(statements, sym_table),
        Expr::While(_, _) => check_while(ast, sym_table),
    }
}

/// Scope discipline, first half: a declaration of a name that the current
/// scope already binds fails with a message that holds the name, and leaves
/// the table as it was. This holds of variables, with or without an initial
/// value, and of functions.
pub proof fn lemma_redeclaration_fails(
    name: Seq<char>,
    typ: Seq<char>,
    init: ExprView,
    params: Seq<(Seq<char>, Seq<char>)>,
    body: ExprView,
    t: TableView,
)
    requires
        t.len() >= 1,
        t.last().contains_key(name),
    ensures
        analyze(ExprView::VarDeclaration(name, typ), t) == (Analysis {
            result: Err(variable_redeclared(name)),
            table: t,
        }),
        analyze(ExprView::VarDeclarationWithAssignment(name, typ, Box::new(init)), t) == (Analysis {
            result: Err(variable_redeclared(name)),
            table: t,
        }),
        analyze(ExprView::FuncDef(name, typ, params, Box::new(body)), t) == (Analysis {
            result: Err(function_redeclared(name)),
            table: t,
        }),
{
}

/// Scope discipline, first half, as a program: two declarations of one name
/// in a row fail, under every table. The error is that of the second
/// declaration, unless the first one fails already.
pub proof fn lemma_declared_twice(
    name: Seq<char>,
    first_type: Seq<char>,
    second_type: Seq<char>,
    t: TableView,
)
    requires
        t.len() >= 1,
    ensures
        analyze(
            ExprView::Statements(
                seq![
                    ExprView::VarDeclaration(name, first_type),
                    ExprView::VarDeclaration(name, second_type),
                ],
            ),
            t,
        ).result == Err::<Seq<char>, Seq<char>>(variable_redeclared(name)),
{
    let stmts = seq![
        ExprView::VarDeclaration(name, first_type),
        ExprView::VarDeclaration(name, second_type),
    ];
    reveal_with_fuel(analyze_upto, 3);
    let first = analyze_upto(stmts, 1, t);
    assert(first == analyze(stmts[0], t));
    assert(analyze_upto(stmts, 2, t) == match first.result {
        Err(_) => first,
        Ok(_) => analyze(stmts[1], first.table),
    });
}

/// Scope discipline, second half: a name that the current scope does not
/// bind can be declared there, whatever the scopes around it bind it to.
/// Afterwards the name stands for the new variable.
pub proof fn lemma_shadowing_succeeds(name: Seq<char>, typ: Seq<char>, t: TableView)
    requires
        t.len() >= 1,
        !t.last().contains_key(name),
    ensures
        analyze(ExprView::VarDeclaration(name, typ), t).result == Ok::<Seq<char>, Seq<char>>(typ),
        resolve(analyze(ExprView::VarDeclaration(name, typ), t).table, name) == Some(
            SymbolView::Variable { typ },
        ),
        analyze(ExprView::VarDeclaration(name, typ), t).table.drop_last() == t.drop_last(),
{
    let after = analyze(ExprView::VarDeclaration(name, typ), t).table;
    assert(after.drop_last() =~= t.drop_last());
}

/// Scope discipline, second half, for a scope just entered: there every
/// name can be declared.
pub proof fn lemma_new_scope_takes_any_name(name: Seq<char>, typ: Seq<char>, t: TableView)
    ensures
        analyze(ExprView::VarDeclaration(name, typ), t.push(Map::empty())).result == Ok::<
            Seq<char>,
            Seq<char>,
        >(typ),
{
}

/// Type soundness of binary operations. Where one is accepted, both
/// operands were accepted with one and the same type; a comparison has the
/// type `bool`; an arithmetic operation has the type `integer` and so have
/// its operands. And a comparison of operands of one type is accepted.
pub proof fn lemma_binary_sound(l: ExprView, op: Operator, r: ExprView, t: TableView)
    ensures
        ({
            let whole = analyze(ExprView::Binary(Box::new(l), op, Box::new(r)), t);
            let left = analyze(l, t);
            let right = analyze(r, left.table);
            &&& whole.result is Ok ==> {
                &&& left.result is Ok
                &&& right.result == left.result
                &&& op.is_comparison() ==> whole.result == Ok::<Seq<char>, Seq<char>>("bool"@)
                &&& op.is_arithmetic() ==> whole.result == Ok::<Seq<char>, Seq<char>>("integer"@)
                    && left.result == whole.result
            }
            &&& (left.result is Ok && right.result == left.result && op.is_comparison())
                ==> whole.result == Ok::<Seq<char>, Seq<char>>("bool"@)
        }),
{
}

/// An analysis that succeeds leaves as many scopes as it found.
pub proof fn lemma_scopes_balanced(e: ExprView, t: TableView)
    requires
        analyze(e, t).result is Ok,
    ensures
        analyze(e, t).table.len() == t.len(),
    decreases e, 0nat,
{
    match e {
        ExprView::VarDeclarationWithAssignment(_, _, init) => {
            lemma_scopes_balanced(*init, t);
        },
        ExprView::Binary(l, _, r) => {
            lemma_scopes_balanced(*l, t);
            lemma_scopes_balanced(*r, analyze(*l, t).table);
        },
        ExprView::Assign(target, value) => {
            lemma_scopes_balanced(*value, t);
        },
        ExprView::Return(value) => {
            lemma_scopes_balanced(*value, t);
        },
        ExprView::Statements(stmts) => {
            lemma_block_balanced(stmts, stmts.len(), t);
        },
        ExprView::Program(stmts) => {
            lemma_block_balanced(stmts, stmts.len(), t);
        },
        ExprView::If(cond, then_branch, els) => {
            lemma_scopes_balanced(*cond, t);
            let tested = analyze(*cond, t);
            lemma_scopes_balanced(*then_branch, tested.table);
            if let Some(branch) = els {
                lemma_scopes_balanced(*branch, analyze(*then_branch, tested.table).table);
            }
        },
        ExprView::While(cond, body) => {
            lemma_scopes_balanced(*cond, t);
            lemma_scopes_balanced(*body, analyze(*cond, t).table);
        },
        ExprView::FuncDef(name, ret, params, body) => {
            let declared = declare(
                t,
                name,
                SymbolView::Function { ret_type: ret, param_types: params },
            );
            lemma_params_keep_depth(declared.push(Map::empty()), params, params.len());
            lemma_scopes_balanced(
                *body,
                declare_params(declared.push(Map::empty()), params, params.len()),
            );
        },
        ExprView::MainFuncDef(body) => {
            let declared = declare(
                t,
                "main"@,
                SymbolView::Function { ret_type: "void"@, param_types: Seq::empty() },
            );
            lemma_scopes_balanced(*body, import_globals(declared.push(Map::empty())));
        },
        _ => {},
    }
}

/// A list of statements that is accepted leaves as many scopes as it found.
proof fn lemma_block_balanced(stmts: Seq<ExprView>, n: nat, t: TableView)
    requires
        analyze_upto(stmts, n, t).result is Ok,
    ensures
        analyze_upto(stmts, n, t).table.len() == t.len(),
    decreases stmts, n,
{
    if n > 0 && n <= stmts.len() {
        lemma_block_balanced(stmts, (n - 1) as nat, t);
        lemma_scopes_balanced(stmts[n - 1], analyze_upto(stmts, (n - 1) as nat, t).table);
    }
}

/// Declaring parameters adds no scope.
proof fn lemma_params_keep_depth(t: TableView, params: Seq<(Seq<char>, Seq<char>)>, n: nat)
    ensures
        declare_params(t, params, n).len() == t.len(),
    decreases n,
{
    if n > 0 && n <= params.len() {
        lemma_params_keep_depth(t, params, (n - 1) as nat);
    }
}

} // verus!
