use power_sequence::expand::{expand, success_body, PowerState, Strategy};
use power_sequence::syntax::{Expr, OperationDeclaration, Param};

fn s(text: &str) -> String {
    text.to_string()
}

fn path(name: &str) -> Expr {
    Expr::Path { qualifier: vec![], name: s(name) }
}

fn qualified(qualifier: &str, name: &str) -> Expr {
    Expr::Path { qualifier: vec![s(qualifier)], name: s(name) }
}

fn node(kind: &str, children: Vec<Expr>) -> Expr {
    Expr::Node { kind: s(kind), children }
}

fn method(receiver: Expr, name: &str, args: Vec<Expr>) -> Expr {
    Expr::MethodCall { receiver: Box::new(receiver), method: s(name), args }
}

fn call(func: Expr, operands: Vec<Expr>) -> Expr {
    Expr::Call { func: Box::new(func), operands }
}

fn awaited(e: Expr) -> Expr {
    node("await", vec![e])
}

/// `self.<name>().await`
fn self_call(name: &str) -> Vec<Expr> {
    vec![awaited(method(path("self"), name, vec![]))]
}

/// `Ok(())`
fn ok_unit() -> Vec<Expr> {
    vec![call(path("Ok"), vec![node("()", vec![])])]
}

fn operation(name: &str, body: Option<Vec<Expr>>) -> OperationDeclaration {
    OperationDeclaration {
        is_async: true,
        name: s(name),
        params: vec![Param { name: s("self"), ty: s("&mut Self") }],
        output: s("Result<(), Self::Error>"),
        body,
    }
}

#[test]
fn new_appends_an_underscore() {
    assert_eq!(PowerState::new("pre").prefix, "pre_");
    assert_eq!(PowerState::new("post").prefix, "post_");
}

#[test]
fn hook_ident_prefixes_every_name() {
    let plan = PowerState::new("pre");
    assert_eq!(plan.hook_ident(&s("power_off")), "pre_power_off");
    assert_eq!(plan.hook_ident(&s("Ok")), "pre_Ok");
}

#[test]
fn callee_ident_exempts_only_ok() {
    let plan = PowerState::new("post");
    assert_eq!(plan.callee_ident(&s("Ok")), "Ok");
    assert_eq!(plan.callee_ident(&s("Some")), "post_Some");
    assert_eq!(plan.callee_ident(&s("ok")), "post_ok");
    assert_eq!(plan.callee_ident(&s("Ok_")), "post_Ok_");
}

#[test]
fn expansion_yields_three_declarations_in_order() {
    let decl = operation("hibernate", Some(self_call("power_off")));
    for strategy in [Strategy::Rewrite, Strategy::StubHooks] {
        let r = expand(operation("hibernate", Some(self_call("power_off"))), strategy);
        assert_eq!(r.len(), 3);
        assert_eq!(r[0].name, "pre_hibernate");
        assert_eq!(r[1].name, "hibernate");
        assert_eq!(r[2].name, "post_hibernate");
        assert_eq!(r[1], decl);
        for hook in [&r[0], &r[2]] {
            assert_eq!(hook.params, decl.params);
            assert_eq!(hook.output, decl.output);
            assert!(hook.is_async);
        }
    }
}

#[test]
fn hibernate_hooks_call_same_role_hooks() {
    let r = expand(operation("hibernate", Some(self_call("power_off"))), Strategy::Rewrite);
    assert_eq!(r[0].body, Some(self_call("pre_power_off")));
    assert_eq!(r[1].body, Some(self_call("power_off")));
    assert_eq!(r[2].body, Some(self_call("post_power_off")));
}

#[test]
fn idle_success_body_is_kept() {
    let r = expand(operation("idle", Some(ok_unit())), Strategy::Rewrite);
    assert_eq!(r[0].body, Some(ok_unit()));
    assert_eq!(r[2].body, Some(ok_unit()));
}

#[test]
fn stub_hooks_discard_delegation() {
    let stub = expand(operation("hibernate", Some(self_call("power_off"))), Strategy::StubHooks);
    assert_eq!(stub[0].body, Some(ok_unit()));
    assert_eq!(stub[2].body, Some(ok_unit()));
    assert_eq!(stub[1].body, Some(self_call("power_off")));
    let rewritten = expand(operation("hibernate", Some(self_call("power_off"))), Strategy::Rewrite);
    assert_ne!(stub[0].body, rewritten[0].body);
    assert_ne!(stub[2].body, rewritten[2].body);
}

#[test]
fn idle_scenario_all_trivially_successful() {
    for strategy in [Strategy::Rewrite, Strategy::StubHooks] {
        let r = expand(operation("idle", Some(ok_unit())), strategy);
        let names: Vec<&str> = r.iter().map(|d| d.name.as_str()).collect();
        assert_eq!(names, vec!["pre_idle", "idle", "post_idle"]);
        for d in &r {
            assert_eq!(d.body, Some(ok_unit()));
        }
    }
}

#[test]
fn activate_scenario() {
    let r = expand(operation("activate", Some(self_call("power_on"))), Strategy::Rewrite);
    assert_eq!(r[0].name, "pre_activate");
    assert_eq!(r[0].body, Some(self_call("pre_power_on")));
    assert_eq!(r[2].name, "post_activate");
    assert_eq!(r[2].body, Some(self_call("post_power_on")));
}

#[test]
fn forwarding_scenario_path_qualified_call() {
    let body = |name: &str| vec![awaited(call(qualified("T", name), vec![path("self")]))];
    let r = expand(operation("power_off", Some(body("power_off"))), Strategy::Rewrite);
    assert_eq!(r[0].name, "pre_power_off");
    assert_eq!(r[0].body, Some(body("pre_power_off")));
    assert_eq!(r[1].body, Some(body("power_off")));
    assert_eq!(r[2].body, Some(body("post_power_off")));
}

#[test]
fn nested_calls_are_renamed_at_every_depth() {
    // if check(self.ready()) { self.power_off().await } else { Ok(()) }
    let input = vec![node(
        "if",
        vec![
            call(path("check"), vec![method(path("self"), "ready", vec![])]),
            node("block", self_call("power_off")),
            node("block", ok_unit()),
        ],
    )];
    let expected = vec![node(
        "if",
        vec![
            call(path("pre_check"), vec![method(path("self"), "pre_ready", vec![])]),
            node("block", self_call("pre_power_off")),
            node("block", ok_unit()),
        ],
    )];
    let r = expand(operation("suspend", Some(input)), Strategy::Rewrite);
    assert_eq!(r[0].body, Some(expected));
}

#[test]
fn chained_calls_and_arguments_are_renamed() {
    // self.bus().write(Some(1)).await
    let input = vec![awaited(method(
        method(path("self"), "bus", vec![]),
        "write",
        vec![call(path("Some"), vec![node("1", vec![])])],
    ))];
    let expected = vec![awaited(method(
        method(path("self"), "post_bus", vec![]),
        "post_write",
        vec![call(path("post_Some"), vec![node("1", vec![])])],
    ))];
    let r = expand(operation("resume", Some(input)), Strategy::Rewrite);
    assert_eq!(r[2].body, Some(expected));
}

#[test]
fn callee_that_is_not_a_path_is_rewritten_inside() {
    // (self.handler())(power_on())
    let input = vec![call(method(path("self"), "handler", vec![]), vec![call(path("power_on"), vec![])])];
    let expected =
        vec![call(method(path("self"), "pre_handler", vec![]), vec![call(path("pre_power_on"), vec![])])];
    let r = expand(operation("wake_up", Some(input)), Strategy::Rewrite);
    assert_eq!(r[0].body, Some(expected));
}

#[test]
fn missing_body_stays_missing_when_rewritten() {
    let r = expand(operation("power_on", None), Strategy::Rewrite);
    assert_eq!(r[0].body, None);
    assert_eq!(r[1].body, None);
    assert_eq!(r[2].body, None);
    let stub = expand(operation("power_on", None), Strategy::StubHooks);
    assert_eq!(stub[0].body, Some(ok_unit()));
    assert_eq!(stub[1].body, None);
    assert_eq!(stub[2].body, Some(ok_unit()));
}

#[test]
fn plain_paths_are_not_renamed() {
    // let x = power_off;  (not a call)
    let input = vec![node("let x", vec![path("power_off")]), path("x")];
    let r = expand(operation("idle", Some(input)), Strategy::Rewrite);
    assert_eq!(r[0].body, Some(vec![node("let x", vec![path("power_off")]), path("x")]));
}

#[test]
fn success_body_is_ok_unit() {
    assert_eq!(success_body(), ok_unit());
}

#[test]
fn hooks_of_one_plan() {
    let plan = PowerState::new("pre");
    let decl = operation("hibernate", Some(self_call("power_off")));
    assert_eq!(plan.rewrite_declaration(&decl).body, Some(self_call("pre_power_off")));
    assert_eq!(plan.stub_declaration(&decl).body, Some(ok_unit()));
    assert_eq!(plan.hook(&decl, Strategy::Rewrite).name, "pre_hibernate");
    assert_eq!(plan.rewrite_expr(&call(qualified("T", "Ok"), vec![])), call(qualified("T", "Ok"), vec![]));
}

#[test]
fn equal_declarations_expand_equally() {
    let body = || Some(vec![awaited(call(qualified("T", "hibernate"), vec![path("self")]))]);
    for strategy in [Strategy::Rewrite, Strategy::StubHooks] {
        let first = expand(operation("hibernate", body()), strategy);
        let second = expand(operation("hibernate", body()), strategy);
        assert_eq!(first, second);
    }
}
