use vstd::prelude::*;
use crate::syntax::{copy_names, copy_params, same_names, same_params, Expr, OperationDeclaration};

verus! {

/// The prefix of pre-hooks: `pre_`.
pub open spec fn pre_prefix() -> Seq<char> {
    seq!['p', 'r', 'e', '_']
}

/// The prefix of post-hooks: `post_`.
pub open spec fn post_prefix() -> Seq<char> {
    seq!['p', 'o', 's', 't', '_']
}

/// The success-constructing identifier `Ok`, which bare calls never rename.
pub open spec fn success_ident() -> Seq<char> {
    seq!['O', 'k']
}

/// The kind of the unit value `()`.
pub open spec fn unit_kind() -> Seq<char> {
    seq!['(', ')']
}

/// The name a bare call's callee takes in a hook: prefixed, unless it is the
/// success-constructing identifier.
pub open spec fn callee_name(prefix: Seq<char>, name: Seq<char>) -> Seq<char> {
    if name == success_ident() {
        name
    } else {
        prefix + name
    }
}

/// `b` is `a` with every call renamed for the hook role `prefix`, at any depth:
/// a receiver-qualified call gets `prefix` before its method name, a bare call
/// through a path gets it before the path's last segment (see `callee_name`),
/// and everything else is kept.
pub open spec fn renamed_expr(prefix: Seq<char>, a: Expr, b: Expr) -> bool
    decreases a,
{
    match a {
        Expr::MethodCall { receiver, method, args } => {
            &&& b matches Expr::MethodCall { receiver: rb, method: mb, args: ab }
            &&& mb@ == prefix + method@
            &&& renamed_expr(prefix, *receiver, *rb)
            &&& renamed_exprs(prefix, args@, ab@)
        },
        Expr::Call { func, operands } => {
            &&& b matches Expr::Call { func: fb, operands: ob }
            &&& match *func {
                Expr::Path { qualifier, name } => {
                    &&& *fb matches Expr::Path { qualifier: qb, name: nb }
                    &&& same_names(qualifier@, qb@)
                    &&& nb@ == callee_name(prefix, name@)
                },
                _ => renamed_expr(prefix, *func, *fb),
            }
            &&& renamed_exprs(prefix, operands@, ob@)
        },
        Expr::Path { qualifier, name } => {
            &&& b matches Expr::Path { qualifier: qb, name: nb }
            &&& same_names(qualifier@, qb@)
            &&& nb@ == name@
        },
        Expr::Node { kind, children } => {
            &&& b matches Expr::Node { kind: kb, children: cb }
            &&& kb@ == kind@
            &&& renamed_exprs(prefix, children@, cb@)
        },
    }
}

/// `b` is the list `a` with each element renamed as `renamed_expr` says.
pub open spec fn renamed_exprs(prefix: Seq<char>, a: Seq<Expr>, b: Seq<Expr>) -> bool
    decreases a,
{
    &&& a.len() == b.len()
    &&& a.len() > 0 ==> {
        &&& renamed_exprs(prefix, a.subrange(0, a.len() - 1), b.subrange(0, b.len() - 1))
        &&& renamed_expr(prefix, a[a.len() - 1], b[b.len() - 1])
    }
}

/// Bodies: both absent, or both present and renamed statement by statement.
pub open spec fn renamed_body(prefix: Seq<char>, a: Option<Vec<Expr>>, b: Option<Vec<Expr>>) -> bool {
    match a {
        None => b is None,
        Some(sa) => b matches Some(sb) && renamed_exprs(prefix, sa@, sb@),
    }
}

/// The body `{ Ok(()) }`, which returns success at once.
pub open spec fn is_success_body(s: Seq<Expr>) -> bool {
    &&& s.len() == 1
    &&& s[0] matches Expr::Call { func, operands }
    &&& *func matches Expr::Path { qualifier, name }
    &&& qualifier.len() == 0
    &&& name@ == success_ident()
    &&& operands.len() == 1
    &&& operands[0] matches Expr::Node { kind, children }
    &&& kind@ == unit_kind()
    &&& children.len() == 0
}

/// `h` has the signature of `d`, named `prefix` followed by the name of `d`.
pub open spec fn is_hook_signature(prefix: Seq<char>, d: OperationDeclaration, h: OperationDeclaration) -> bool {
    &&& h.is_async == d.is_async
    &&& h.name@ == prefix + d.name@
    &&& same_params(d.params@, h.params@)
    &&& h.output@ == d.output@
}

/// How the hooks of an operation get their bodies.
#[derive(Debug, Clone, Copy, PartialEq, Eq, Structural)]
pub enum Strategy {
    /// Every hook returns success at once, whatever the operation's body does.
    StubHooks,
    /// A hook's body is the operation's body with every call renamed for the
    /// hook's role, so that a hook calls the same-role hooks of its siblings.
    Rewrite,
}

/// `h` is the hook of role `prefix` that `strategy` derives from `d`.
pub open spec fn is_hook(prefix: Seq<char>, strategy: Strategy, d: OperationDeclaration, h: OperationDeclaration) -> bool {
    &&& is_hook_signature(prefix, d, h)
    &&& match strategy {
        Strategy::StubHooks => h.body matches Some(s) && is_success_body(s@),
        Strategy::Rewrite => renamed_body(prefix, d.body, h.body),
    }
}

/// A rename plan: the prefix that one hook role puts before the names it
/// rewrites. The success-constructing identifier is exempt from it.
pub struct PowerState {
    pub prefix: String,
}

impl PowerState {
    /// The plan for the role named `prefix`: its names start with `prefix_`.
    pub fn new(prefix: &str) -> (r: Self)
        ensures
            r.prefix@ == prefix@ + seq!['_'],
    {
        let mut p = String::from_str(prefix);
        p.append("_");
        proof {
            reveal_strlit("_");
        }
        assert("_"@ =~= seq!['_']);
        PowerState { prefix: p }
    }

    /// The name `name` takes in this plan's hooks.
    pub fn hook_ident(&self, name: &String) -> (r: String)
        ensures
            r@ == self.prefix@ + name@,
    {
        self.prefix.clone().concat(name.as_str())
    }

    /// The name a bare call's callee `name` takes in this plan's hooks.
    pub fn callee_ident(&self, name: &String) -> (r: String)
        ensures
            r@ == callee_name(self.prefix@, name@),
    {
        let ok = String::from_str("Ok");
        proof {
            reveal_strlit("Ok");
        }
        assert(ok@ =~= success_ident());
        if *name == ok {
            name.clone()
        } else {
            self.hook_ident(name)
        }
    }

    /// Rewrites one expression, at every depth.
    pub fn rewrite_expr(&self, e: &Expr) -> (r: Expr)
        ensures
            renamed_expr(self.prefix@, *e, r),
        decreases e,
    {
        match e {
            Expr::MethodCall { receiver, method, args } => {
                let rb = self.rewrite_expr(receiver);
                let mb = self.hook_ident(method);
                let ab = self.rewrite_exprs(args);
                Expr::MethodCall { receiver: Box::new(rb), method: mb, args: ab }
            },
            Expr::Call { func, operands } => {
                let fb = match &**func {
                    Expr::Path { qualifier, name } => Expr::Path {
                        qualifier: copy_names(qualifier),
                        name: self.callee_ident(name),
                    },
                    other => self.rewrite_expr(other),
                };
                let ob = self.rewrite_exprs(operands);
                Expr::Call { func: Box::new(fb), operands: ob }
            },
            Expr::Path { qualifier, name } => {
                Expr::Path { qualifier: copy_names(qualifier), name: name.clone() }
            },
            Expr::Node { kind, children } => {
                let cb = self.rewrite_exprs(children);
                Expr::Node { kind: kind.clone(), children: cb }
            },
        }
    }

    /// Rewrites each expression of a list.
    pub fn rewrite_exprs(&self, es: &Vec<Expr>) -> (r: Vec<Expr>)
        ensures
            renamed_exprs(self.prefix@, es@, r@),
        decreases es,
    {
        let mut r: Vec<Expr> = Vec::new();
        let mut i: usize = 0;
        while i < es.len()
            invariant
                i <= es.len(),
                renamed_exprs(self.prefix@, es@.subrange(0, i as int), r@),
            decreases es.len() - i,
        {
            assert(decreases_to!(es => es[i as int]));
            let x = self.rewrite_expr(&es[i]);
            let ghost before = r@;
            r.push(x);
            assert(es@.subrange(0, i + 1).subrange(0, i as int) =~= es@.subrange(0, i as int));
            assert(r@.subrange(0, i as int) =~= before);
            i = i + 1;
        }
        assert(es@.subrange(0, es.len() as int) =~= es@);
        r
    }
}

/// Builds the body `{ Ok(()) }`.
pub fn success_body() -> (r: Vec<Expr>)
    ensures
        is_success_body(r@),
{
    let ok = String::from_str("Ok");
    let unit = String::from_str("()");
    proof {
        reveal_strlit("Ok");
        reveal_strlit("()");
    }
    assert(ok@ =~= success_ident());
    assert(unit@ =~= unit_kind());
    let mut operands: Vec<Expr> = Vec::new();
    operands.push(Expr::Node { kind: unit, children: Vec::new() });
    let func = Expr::Path { qualifier: Vec::new(), name: ok };
    let mut r: Vec<Expr> = Vec::new();
    r.push(Expr::Call { func: Box::new(func), operands });
    r
}

impl PowerState {
    /// The hook that rewrites `d`: its name and every call of its body get
    /// this plan's prefix (the success-constructing identifier excepted).
    pub fn rewrite_declaration(&self, d: &OperationDeclaration) -> (r: OperationDeclaration)
        ensures
            is_hook(self.prefix@, Strategy::Rewrite, *d, r),
    {
        let body = match &d.body {
            Some(stmts) => Some(self.rewrite_exprs(stmts)),
            None => None,
        };
        OperationDeclaration {
            is_async: d.is_async,
            name: self.hook_ident(&d.name),
            params: copy_params(&d.params),
            output: d.output.clone(),
            body,
        }
    }

    /// The hook of `d` that returns success at once.
    pub fn stub_declaration(&self, d: &OperationDeclaration) -> (r: OperationDeclaration)
        ensures
            is_hook(self.prefix@, Strategy::StubHooks, *d, r),
    {
        OperationDeclaration {
            is_async: d.is_async,
            name: self.hook_ident(&d.name),
            params: copy_params(&d.params),
            output: d.output.clone(),
            body: Some(success_body()),
        }
    }

    /// The hook of `d` for this plan's role, as `strategy` derives it.
    pub fn hook(&self, d: &OperationDeclaration, strategy: Strategy) -> (r: OperationDeclaration)
        ensures
            is_hook(self.prefix@, strategy, *d, r),
    {
        match strategy {
            Strategy::StubHooks => self.stub_declaration(d),
            Strategy::Rewrite => self.rewrite_declaration(d),
        }
    }
}

/// Expands one declaration into its pre-hook, the declaration itself,
/// untouched, and its post-hook, in that order.
pub fn expand(decl: OperationDeclaration, strategy: Strategy) -> (r: Vec<OperationDeclaration>)
    ensures
        r.len() == 3,
        is_hook(pre_prefix(), strategy, decl, r[0]),
        r[1] == decl,
        is_hook(post_prefix(), strategy, decl, r[2]),
{
    let pre = PowerState::new("pre");
    let post = PowerState::new("post");
    proof {
        reveal_strlit("pre");
        reveal_strlit("post");
    }
    assert(pre.prefix@ =~= pre_prefix());
    assert(post.prefix@ =~= post_prefix());
    let first = pre.hook(&decl, strategy);
    let last = post.hook(&decl, strategy);
    let mut r: Vec<OperationDeclaration> = Vec::new();
    r.push(first);
    r.push(decl);
    r.push(last);
    r
}

/// Renaming keeps the body `{ Ok(()) }` as it is: its one call is to the
/// success-constructing identifier, which is exempt.
pub proof fn lemma_success_body_renamed(prefix: Seq<char>, a: Seq<Expr>, b: Seq<Expr>)
    requires
        is_success_body(a),
        renamed_exprs(prefix, a, b),
    ensures
        is_success_body(b),
{
    assert(a.subrange(0, 0).len() == 0);
    assert(renamed_expr(prefix, a[0], b[0]));
    let ops = a[0]->operands@;
    let ops_b = b[0]->operands@;
    assert(renamed_exprs(prefix, ops, ops_b));
    assert(renamed_expr(prefix, ops[0], ops_b[0]));
    assert(renamed_exprs(prefix, ops[0]->children@, ops_b[0]->children@));
}

/// Where an operation's body returns success at once, each hook that either
/// strategy derives from it returns success at once too.
pub proof fn lemma_success_hooks(prefix: Seq<char>, strategy: Strategy, d: OperationDeclaration, h: OperationDeclaration)
    requires
        d.body matches Some(s) && is_success_body(s@),
        is_hook(prefix, strategy, d, h),
    ensures
        h.body matches Some(t) && is_success_body(t@),
{
    if strategy == Strategy::Rewrite {
        lemma_success_body_renamed(prefix, d.body->0@, h.body->0@);
    }
}

/// For the pre- and post- roles, renaming gives the body `{ Ok(()) }` only
/// from that same body.
pub proof fn lemma_renamed_to_success_body(prefix: Seq<char>, a: Seq<Expr>, b: Seq<Expr>)
    requires
        prefix == pre_prefix() || prefix == post_prefix(),
        renamed_exprs(prefix, a, b),
        is_success_body(b),
    ensures
        is_success_body(a),
{
    assert(a.subrange(0, 0).len() == 0);
    assert(renamed_expr(prefix, a[0], b[0]));
    let fb = *b[0]->func;
    assert(fb matches Expr::Path { qualifier, name } && name@ == success_ident());
    match a[0] {
        Expr::Call { func, operands } => {
            match *func {
                Expr::Path { qualifier, name } => {
                    if name@ != success_ident() {
                        assert((prefix + name@).len() > success_ident().len());
                    }
                },
                _ => {
                    assert(renamed_expr(prefix, *func, fb));
                },
            }
            let ops_b = b[0]->operands@;
            assert(renamed_exprs(prefix, operands@, ops_b));
            assert(operands@.subrange(0, 0).len() == 0);
            assert(renamed_expr(prefix, operands@[0], ops_b[0]));
            if operands@[0] is Node {
                assert(renamed_exprs(prefix, operands@[0]->children@, ops_b[0]->children@));
            }
        },
        _ => {},
    }
}

/// The two strategies diverge on every operation whose body does more than
/// return success: the stub hooks return success at once, while the
/// rewritten hooks do not.
pub proof fn lemma_strategies_diverge(
    prefix: Seq<char>,
    d: OperationDeclaration,
    stub: OperationDeclaration,
    rewritten: OperationDeclaration,
)
    requires
        prefix == pre_prefix() || prefix == post_prefix(),
        d.body matches Some(s) && !is_success_body(s@),
        is_hook(prefix, Strategy::StubHooks, d, stub),
        is_hook(prefix, Strategy::Rewrite, d, rewritten),
    ensures
        stub.body matches Some(s) && is_success_body(s@),
        rewritten.body matches Some(s) && !is_success_body(s@),
{
    if is_success_body(rewritten.body->0@) {
        lemma_renamed_to_success_body(prefix, d.body->0@, rewritten.body->0@);
    }
}

/// Two expressions that read the same: same shape, same names, same kinds.
pub open spec fn same_expr(a: Expr, b: Expr) -> bool
    decreases a,
{
    match a {
        Expr::MethodCall { receiver, method, args } => {
            &&& b matches Expr::MethodCall { receiver: rb, method: mb, args: ab }
            &&& mb@ == method@
            &&& same_expr(*receiver, *rb)
            &&& same_exprs(args@, ab@)
        },
        Expr::Call { func, operands } => {
            &&& b matches Expr::Call { func: fb, operands: ob }
            &&& same_expr(*func, *fb)
            &&& same_exprs(operands@, ob@)
        },
        Expr::Path { qualifier, name } => {
            &&& b matches Expr::Path { qualifier: qb, name: nb }
            &&& same_names(qualifier@, qb@)
            &&& nb@ == name@
        },
        Expr::Node { kind, children } => {
            &&& b matches Expr::Node { kind: kb, children: cb }
            &&& kb@ == kind@
            &&& same_exprs(children@, cb@)
        },
    }
}

/// Two lists of expressions that read the same, element by element.
pub open spec fn same_exprs(a: Seq<Expr>, b: Seq<Expr>) -> bool
    decreases a,
{
    &&& a.len() == b.len()
    &&& a.len() > 0 ==> {
        &&& same_exprs(a.subrange(0, a.len() - 1), b.subrange(0, b.len() - 1))
        &&& same_expr(a[a.len() - 1], b[b.len() - 1])
    }
}

/// Two declarations that read the same.
pub open spec fn same_declaration(a: OperationDeclaration, b: OperationDeclaration) -> bool {
    &&& a.is_async == b.is_async
    &&& a.name@ == b.name@
    &&& same_params(a.params@, b.params@)
    &&& a.output@ == b.output@
    &&& match a.body {
        None => b.body is None,
        Some(sa) => b.body matches Some(sb) && same_exprs(sa@, sb@),
    }
}

/// Renaming two expressions that read the same gives two that read the same.
pub proof fn lemma_renamed_expr_same(prefix: Seq<char>, a1: Expr, a2: Expr, b1: Expr, b2: Expr)
    requires
        same_expr(a1, a2),
        renamed_expr(prefix, a1, b1),
        renamed_expr(prefix, a2, b2),
    ensures
        same_expr(b1, b2),
    decreases a1,
{
    match a1 {
        Expr::MethodCall { receiver, method, args } => {
            assert(a2 is MethodCall && b1 is MethodCall && b2 is MethodCall);
            assert(same_expr(*receiver, *a2->receiver));
            lemma_renamed_expr_same(prefix, *receiver, *a2->receiver, *b1->receiver, *b2->receiver);
            lemma_renamed_exprs_same(prefix, args@, a2->args@, b1->args@, b2->args@);
            assert(b1->method@ == b2->method@);
        },
        Expr::Call { func, operands } => {
            assert(a2 is Call && b1 is Call && b2 is Call);
            assert(same_expr(*func, *a2->func));
            match *func {
                Expr::Path { qualifier, name } => {
                    let q2 = a2->func->qualifier@;
                    let qb1 = b1->func->qualifier@;
                    let qb2 = b2->func->qualifier@;
                    assert(same_names(q2, qb2));
                    assert(forall|i: int| 0 <= i < qb1.len() ==> (#[trigger] qb1[i])@ == qualifier@[i]@ && q2[i]@ == qb2[i]@);
                    assert(same_names(qb1, qb2));
                    assert(same_expr(*b1->func, *b2->func));
                },
                _ => {
                    assert(*a2->func !is Path);
                    lemma_renamed_expr_same(prefix, *func, *a2->func, *b1->func, *b2->func);
                },
            }
            lemma_renamed_exprs_same(prefix, operands@, a2->operands@, b1->operands@, b2->operands@);
        },
        Expr::Path { qualifier, name } => {
            let q2 = a2->qualifier@;
            let qb1 = b1->qualifier@;
            let qb2 = b2->qualifier@;
            assert(forall|i: int| 0 <= i < qb1.len() ==> (#[trigger] qb1[i])@ == qualifier@[i]@ && q2[i]@ == qb2[i]@);
        },
        Expr::Node { kind, children } => {
            lemma_renamed_exprs_same(prefix, children@, a2->children@, b1->children@, b2->children@);
        },
    }
}

/// Renaming two lists that read the same gives two that read the same.
pub proof fn lemma_renamed_exprs_same(prefix: Seq<char>, a1: Seq<Expr>, a2: Seq<Expr>, b1: Seq<Expr>, b2: Seq<Expr>)
    requires
        same_exprs(a1, a2),
        renamed_exprs(prefix, a1, b1),
        renamed_exprs(prefix, a2, b2),
    ensures
        same_exprs(b1, b2),
    decreases a1,
{
    if a1.len() > 0 {
        let n = a1.len() - 1;
        lemma_renamed_exprs_same(prefix, a1.subrange(0, n), a2.subrange(0, n), b1.subrange(0, n), b2.subrange(0, n));
        lemma_renamed_expr_same(prefix, a1[n], a2[n], b1[n], b2[n]);
    }
}

/// Expansion depends on what a declaration reads alone: two occurrences of
/// one declaration, each expanded on its own, give hooks that read the same.
pub proof fn lemma_expansion_deterministic(
    prefix: Seq<char>,
    strategy: Strategy,
    d1: OperationDeclaration,
    d2: OperationDeclaration,
    h1: OperationDeclaration,
    h2: OperationDeclaration,
)
    requires
        same_declaration(d1, d2),
        is_hook(prefix, strategy, d1, h1),
        is_hook(prefix, strategy, d2, h2),
    ensures
        same_declaration(h1, h2),
{
    let p1 = h1.params@;
    assert(forall|i: int| 0 <= i < p1.len() ==> (#[trigger] p1[i]).name@ == d1.params@[i].name@ && d2.params@[i].name@ == h2.params@[i].name@);
    if strategy == Strategy::Rewrite {
        if d1.body is Some {
            lemma_renamed_exprs_same(prefix, d1.body->0@, d2.body->0@, h1.body->0@, h2.body->0@);
        }
    } else {
        let s1 = h1.body->0@;
        let s2 = h2.body->0@;
        let o1 = s1[0]->operands@;
        let o2 = s2[0]->operands@;
        assert(same_exprs(o1[0]->children@, o2[0]->children@));
        assert(same_expr(o1[0], o2[0]));
        assert(same_exprs(o1.subrange(0, 0), o2.subrange(0, 0)));
        assert(same_expr(*s1[0]->func, *s2[0]->func));
        assert(same_exprs(o1, o2));
        assert(same_expr(s1[0], s2[0]));
        assert(same_exprs(s1.subrange(0, 0), s2.subrange(0, 0)));
    }
}

} // verus!
