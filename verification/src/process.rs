//! The environment that server-owned processes receive.
use crate::config::{text_pairs, texts, McpServerConfig, McpServerModel};
use vstd::prelude::*;

verus! {

/// The value of the first variable called `name`.
pub open spec fn variable(environment: Seq<(Seq<char>, Seq<char>)>, name: Seq<char>) -> Option<
    Seq<char>,
>
    decreases environment.len(),
{
    if environment.len() == 0 {
        None
    } else if environment[0].0 == name {
        Some(environment[0].1)
    } else {
        variable(environment.drop_first(), name)
    }
}

/// The `(name, value)` pairs of the listed names that the environment sets,
/// in the order of the list.
pub open spec fn passed_variables(
    names: Seq<Seq<char>>,
    environment: Seq<(Seq<char>, Seq<char>)>,
) -> Seq<(Seq<char>, Seq<char>)>
    decreases names.len(),
{
    if names.len() == 0 {
        Seq::empty()
    } else {
        let earlier = passed_variables(names.drop_last(), environment);
        match variable(environment, names.last()) {
            Some(value) => earlier.push((names.last(), value)),
            None => earlier,
        }
    }
}

/// An MCP server's environment: the `pass_env` variables the server's own
/// environment sets, then the fixed `env` values.
pub open spec fn mcp_environment(
    server: McpServerModel,
    environment: Seq<(Seq<char>, Seq<char>)>,
) -> Seq<(Seq<char>, Seq<char>)> {
    passed_variables(server.pass_env, environment) + server.env
}

/// Looks up one variable of the server environment.
fn find_variable(environment: &Vec<(String, String)>, name: &String) -> (value: Option<String>)
    ensures
        match value {
            Some(v) => variable(text_pairs(environment@), name@) == Some(v@),
            None => variable(text_pairs(environment@), name@) is None,
        },
{
    let ghost all = text_pairs(environment@);
    assert(all.skip(0) =~= all);
    let mut index: usize = 0;
    while index < environment.len()
        invariant
            index <= environment@.len(),
            all == text_pairs(environment@),
            variable(all, name@) == variable(all.skip(index as int), name@),
        decreases environment@.len() - index,
    {
        assert(all.skip(index as int).drop_first() =~= all.skip(index + 1));
        if environment[index].0.eq(name) {
            return Some(environment[index].1.clone());
        }
        index = index + 1;
    }
    None
}

/// The environment for one MCP server: each `pass_env` name, in name order,
/// that `server_environment` sets, with its value, then the fixed `env`
/// values in name order.
pub fn selected_mcp_environment(
    configured: &McpServerConfig,
    server_environment: &Vec<(String, String)>,
) -> (selected: Vec<(String, String)>)
    ensures
        text_pairs(selected@) == mcp_environment(configured@, text_pairs(server_environment@)),
{
    let ghost server = configured@;
    let ghost environment = text_pairs(server_environment@);
    let names = configured.pass_env_names();
    let fixed_values = configured.fixed_values();
    let mut selected: Vec<(String, String)> = Vec::new();
    let mut index: usize = 0;
    while index < names.len()
        invariant
            index <= names@.len(),
            texts(names@) == server.pass_env,
            environment == text_pairs(server_environment@),
            text_pairs(selected@) == passed_variables(server.pass_env.take(index as int), environment),
        decreases names@.len() - index,
    {
        let name = &names[index];
        let ghost before = selected@;
        assert(server.pass_env.take(index + 1).drop_last() =~= server.pass_env.take(index as int));
        assert(server.pass_env[index as int] == name@);
        match find_variable(server_environment, name) {
            Some(value) => {
                selected.push((name.clone(), value));
                assert(text_pairs(selected@) =~= text_pairs(before).push((name@, value@)));
            },
            None => {},
        }
        index = index + 1;
    }
    assert(server.pass_env.take(index as int) =~= server.pass_env);
    let ghost passed = text_pairs(selected@);
    let mut fixed: usize = 0;
    while fixed < fixed_values.len()
        invariant
            fixed <= fixed_values@.len(),
            text_pairs(fixed_values@) == server.env,
            text_pairs(selected@) == passed + server.env.take(fixed as int),
        decreases fixed_values@.len() - fixed,
    {
        let ghost before = selected@;
        selected.push((fixed_values[fixed].0.clone(), fixed_values[fixed].1.clone()));
        assert(text_pairs(selected@) =~= text_pairs(before).push(server.env[fixed as int]));
        assert(server.env.take(fixed + 1) =~= server.env.take(fixed as int).push(server.env[fixed as int]));
        fixed = fixed + 1;
    }
    assert(server.env.take(fixed as int) =~= server.env);
    selected
}

/// A variable is found wherever it stands in the environment, whatever the
/// order of the other variables: the value is that of the first pair named
/// `name`.
pub proof fn lemma_variable_is_the_first_match(
    environment: Seq<(Seq<char>, Seq<char>)>,
    name: Seq<char>,
    index: int,
)
    requires
        0 <= index < environment.len(),
        environment[index].0 == name,
        forall|j: int| 0 <= j < index ==> environment[j].0 != name,
    ensures
        variable(environment, name) == Some(environment[index].1),
    decreases index,
{
    if index > 0 {
        let rest = environment.drop_first();
        assert forall|j: int| 0 <= j < index - 1 implies rest[j].0 != name by {
            assert(rest[j] == environment[j + 1]);
        }
        lemma_variable_is_the_first_match(rest, name, index - 1);
    }
}

/// A variable that no pair names is not set.
pub proof fn lemma_variable_absent(environment: Seq<(Seq<char>, Seq<char>)>, name: Seq<char>)
    requires
        forall|j: int| 0 <= j < environment.len() ==> environment[j].0 != name,
    ensures
        variable(environment, name) is None,
    decreases environment.len(),
{
    if environment.len() > 0 {
        let rest = environment.drop_first();
        assert forall|j: int| 0 <= j < rest.len() implies rest[j].0 != name by {
            assert(rest[j] == environment[j + 1]);
        }
        lemma_variable_absent(rest, name);
    }
}

/// Each `pass_env` name that the environment sets is passed with its value:
/// a lone name is passed exactly when some pair names it, wherever that pair
/// stands.
pub proof fn lemma_pass_env_name_is_copied(
    environment: Seq<(Seq<char>, Seq<char>)>,
    name: Seq<char>,
    index: int,
)
    requires
        0 <= index < environment.len(),
        environment[index].0 == name,
        forall|j: int| 0 <= j < index ==> environment[j].0 != name,
    ensures
        passed_variables(seq![name], environment) == seq![(name, environment[index].1)],
{
    lemma_variable_is_the_first_match(environment, name, index);
    let names = seq![name];
    assert(names.drop_last() =~= Seq::<Seq<char>>::empty());
    assert(names.last() == name);
    assert(passed_variables(names.drop_last(), environment) =~= Seq::empty());
    assert(Seq::<(Seq<char>, Seq<char>)>::empty().push((name, environment[index].1)) =~= seq![
        (name, environment[index].1),
    ]);
}

} // verus!
