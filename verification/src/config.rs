//! Server-owned configuration that the ACP policy reads.
use vstd::prelude::*;
use vstd::utf8::encode_utf8;

verus! {

/// How a `session/new` request's MCP server list is treated.
#[derive(Clone, Copy, Debug, PartialEq, Eq, Structural)]
pub enum McpPolicy {
    /// Replace `params.mcpServers` with an empty array.
    Deny,
    /// Replace each incoming server by the configured server of its name.
    Allowlisted,
    /// Forward client MCP definitions unchanged.
    Passthrough,
}

impl Default for McpPolicy {
    /// Allowlisting is the default policy.
    fn default() -> (policy: Self)
        ensures
            policy == McpPolicy::Allowlisted,
    {
        McpPolicy::Allowlisted
    }
}

/// One server-owned MCP server definition.
#[derive(Clone, Debug)]
pub struct McpServerConfig {
    /// Absolute path of the MCP server executable.
    pub command: String,
    /// Command-line arguments.
    pub args: Vec<String>,
    /// Names of server environment variables copied into the MCP environment,
    /// taken as a set: each name once, in name order.
    pub pass_env: Vec<String>,
    /// Fixed environment values, taken as a map: each name once, in name
    /// order, the later value of a name listed twice.
    pub env: Vec<(String, String)>,
}

/// The texts of a list of strings.
pub open spec fn texts(strings: Seq<String>) -> Seq<Seq<char>> {
    Seq::new(strings.len(), |i: int| strings[i]@)
}

/// The texts of a list of string pairs.
pub open spec fn text_pairs(pairs: Seq<(String, String)>) -> Seq<(Seq<char>, Seq<char>)> {
    Seq::new(pairs.len(), |i: int| (pairs[i].0@, pairs[i].1@))
}

/// Byte order of byte strings, as `String`'s `Ord` compares texts: the first
/// differing byte decides, and a proper prefix comes first.
pub open spec fn bytes_before(left: Seq<u8>, right: Seq<u8>) -> bool
    decreases left.len(),
{
    if left.len() == 0 {
        right.len() > 0
    } else if right.len() == 0 {
        false
    } else if left[0] != right[0] {
        left[0] < right[0]
    } else {
        bytes_before(left.drop_first(), right.drop_first())
    }
}

/// `left` comes before `right` in the order of `String`: by their UTF-8 bytes.
pub open spec fn text_before(left: Seq<char>, right: Seq<char>) -> bool {
    bytes_before(encode_utf8(left), encode_utf8(right))
}

/// A name added to a set of names kept in name order.
pub open spec fn insert_name(names: Seq<Seq<char>>, name: Seq<char>) -> Seq<Seq<char>>
    decreases names.len(),
{
    if names.len() == 0 {
        seq![name]
    } else if names[0] == name {
        names
    } else if text_before(name, names[0]) {
        seq![name] + names
    } else {
        seq![names[0]] + insert_name(names.drop_first(), name)
    }
}

/// The set of a list of names, as a `BTreeSet` built from the list holds it:
/// each name once, in name order.
pub open spec fn name_set(names: Seq<Seq<char>>) -> Seq<Seq<char>>
    decreases names.len(),
{
    if names.len() == 0 {
        Seq::empty()
    } else {
        insert_name(name_set(names.drop_last()), names.last())
    }
}

/// A name and value added to a map kept in name order; a name already there
/// takes the new value.
pub open spec fn insert_value(
    pairs: Seq<(Seq<char>, Seq<char>)>,
    pair: (Seq<char>, Seq<char>),
) -> Seq<(Seq<char>, Seq<char>)>
    decreases pairs.len(),
{
    if pairs.len() == 0 {
        seq![pair]
    } else if pairs[0].0 == pair.0 {
        seq![pair] + pairs.drop_first()
    } else if text_before(pair.0, pairs[0].0) {
        seq![pair] + pairs
    } else {
        seq![pairs[0]] + insert_value(pairs.drop_first(), pair)
    }
}

/// The map of a list of name and value pairs, as a `BTreeMap` built from
/// the list holds it: each name once, in name order, with the later value of
/// a name listed twice.
pub open spec fn value_map(pairs: Seq<(Seq<char>, Seq<char>)>) -> Seq<(Seq<char>, Seq<char>)>
    decreases pairs.len(),
{
    if pairs.len() == 0 {
        Seq::empty()
    } else {
        insert_value(value_map(pairs.drop_last()), pairs.last())
    }
}

/// The model of an MCP server definition.
pub struct McpServerModel {
    pub command: Seq<char>,
    pub args: Seq<Seq<char>>,
    /// The `pass_env` names as a set, in name order.
    pub pass_env: Seq<Seq<char>>,
    /// The fixed values as a map, in name order.
    pub env: Seq<(Seq<char>, Seq<char>)>,
}

impl View for McpServerConfig {
    type V = McpServerModel;

    open spec fn view(&self) -> McpServerModel {
        McpServerModel {
            command: self.command@,
            args: texts(self.args@),
            pass_env: name_set(texts(self.pass_env@)),
            env: value_map(text_pairs(self.env@)),
        }
    }
}

/// Whether `left` comes before `right` in the order of `String`.
fn text_is_before(left: &String, right: &String) -> (before: bool)
    ensures
        before == text_before(left@, right@),
{
    let x = left.as_str().as_bytes();
    let y = right.as_str().as_bytes();
    let mut i: usize = 0;
    assert(x@.skip(0) =~= x@);
    assert(y@.skip(0) =~= y@);
    while i < x.len() && i < y.len()
        invariant
            i <= x@.len(),
            i <= y@.len(),
            x@ == encode_utf8(left@),
            y@ == encode_utf8(right@),
            bytes_before(x@, y@) == bytes_before(x@.skip(i as int), y@.skip(i as int)),
        decreases x@.len() - i,
    {
        assert(x@.skip(i as int)[0] == x@[i as int]);
        assert(y@.skip(i as int)[0] == y@[i as int]);
        if x[i] != y[i] {
            return x[i] < y[i];
        }
        assert(x@.skip(i as int).drop_first() =~= x@.skip(i + 1));
        assert(y@.skip(i as int).drop_first() =~= y@.skip(i + 1));
        i = i + 1;
    }
    i >= x.len() && i < y.len()
}

/// Adds a name to a set of names kept in name order.
fn add_name(names: &mut Vec<String>, name: String)
    ensures
        texts(final(names)@) == insert_name(texts(old(names)@), name@),
{
    let ghost all = texts(names@);
    let mut j: usize = 0;
    assert(all.skip(0) =~= all);
    while j < names.len()
        invariant
            j <= names@.len(),
            names@ == old(names)@,
            all == texts(names@),
            insert_name(all, name@) == all.take(j as int) + insert_name(all.skip(j as int), name@),
        decreases names@.len() - j,
    {
        assert(all.skip(j as int)[0] == names@[j as int]@);
        if names[j].eq(&name) {
            assert(all.take(j as int) + all.skip(j as int) =~= all);
            return;
        }
        if text_is_before(&name, &names[j]) {
            names.insert(j, name);
            assert(texts(names@) =~= all.take(j as int) + (seq![name@] + all.skip(j as int)));
            return;
        }
        assert(all.skip(j as int).drop_first() =~= all.skip(j + 1));
        assert(all.take(j + 1) =~= all.take(j as int) + seq![all[j as int]]);
        j = j + 1;
    }
    names.push(name);
    assert(all.skip(j as int) =~= Seq::<Seq<char>>::empty());
    assert(texts(names@) =~= all.take(j as int) + seq![name@]);
}

/// Adds a name and value to a map kept in name order.
fn add_value(pairs: &mut Vec<(String, String)>, pair: (String, String))
    ensures
        text_pairs(final(pairs)@) == insert_value(text_pairs(old(pairs)@), (pair.0@, pair.1@)),
{
    let ghost all = text_pairs(pairs@);
    let ghost item = (pair.0@, pair.1@);
    let mut j: usize = 0;
    assert(all.skip(0) =~= all);
    while j < pairs.len()
        invariant
            j <= pairs@.len(),
            pairs@ == old(pairs)@,
            all == text_pairs(pairs@),
            item == (pair.0@, pair.1@),
            insert_value(all, item) == all.take(j as int) + insert_value(all.skip(j as int), item),
        decreases pairs@.len() - j,
    {
        assert(all.skip(j as int)[0] == (pairs@[j as int].0@, pairs@[j as int].1@));
        if pairs[j].0.eq(&pair.0) {
            pairs.set(j, pair);
            assert(all.skip(j as int).drop_first() =~= all.skip(j + 1));
            assert(text_pairs(pairs@) =~= all.take(j as int) + (seq![item] + all.skip(j + 1)));
            return;
        }
        if text_is_before(&pair.0, &pairs[j].0) {
            pairs.insert(j, pair);
            assert(text_pairs(pairs@) =~= all.take(j as int) + (seq![item] + all.skip(j as int)));
            return;
        }
        assert(all.skip(j as int).drop_first() =~= all.skip(j + 1));
        assert(all.take(j + 1) =~= all.take(j as int) + seq![all[j as int]]);
        j = j + 1;
    }
    pairs.push(pair);
    assert(all.skip(j as int) =~= Seq::<(Seq<char>, Seq<char>)>::empty());
    assert(text_pairs(pairs@) =~= all.take(j as int) + seq![item]);
}

impl McpServerConfig {
    /// The `pass_env` names as a set: each once, in name order.
    pub fn pass_env_names(&self) -> (names: Vec<String>)
        ensures
            texts(names@) == self@.pass_env,
    {
        let ghost listed = texts(self.pass_env@);
        let mut names: Vec<String> = Vec::new();
        let mut i: usize = 0;
        assert(texts(names@) =~= Seq::<Seq<char>>::empty());
        while i < self.pass_env.len()
            invariant
                i <= self.pass_env@.len(),
                listed == texts(self.pass_env@),
                texts(names@) == name_set(listed.take(i as int)),
            decreases self.pass_env@.len() - i,
        {
            assert(listed.take(i + 1).drop_last() =~= listed.take(i as int));
            add_name(&mut names, self.pass_env[i].clone());
            i = i + 1;
        }
        assert(listed.take(i as int) =~= listed);
        names
    }

    /// The fixed values as a map: each name once, in name order, with the
    /// later value of a name listed twice.
    pub fn fixed_values(&self) -> (pairs: Vec<(String, String)>)
        ensures
            text_pairs(pairs@) == self@.env,
    {
        let ghost listed = text_pairs(self.env@);
        let mut pairs: Vec<(String, String)> = Vec::new();
        let mut i: usize = 0;
        assert(text_pairs(pairs@) =~= Seq::<(Seq<char>, Seq<char>)>::empty());
        while i < self.env.len()
            invariant
                i <= self.env@.len(),
                listed == text_pairs(self.env@),
                text_pairs(pairs@) == value_map(listed.take(i as int)),
            decreases self.env@.len() - i,
        {
            assert(listed.take(i + 1).drop_last() =~= listed.take(i as int));
            let pair = (self.env[i].0.clone(), self.env[i].1.clone());
            add_value(&mut pairs, pair);
            i = i + 1;
        }
        assert(listed.take(i as int) =~= listed);
        pairs
    }
}

/// The models of named MCP server definitions.
pub open spec fn named_servers(servers: Seq<(String, McpServerConfig)>) -> Seq<
    (Seq<char>, McpServerModel),
> {
    Seq::new(servers.len(), |i: int| (servers[i].0@, servers[i].1@))
}

/// Names in strictly increasing order, so that none occurs twice.
pub open spec fn strictly_ordered(names: Seq<Seq<char>>) -> bool {
    forall|i: int, j: int| 0 <= i < j < names.len() ==> text_before(#[trigger] names[i], #[trigger] names[j])
}

/// The names of a list of pairs.
pub open spec fn names_of(pairs: Seq<(Seq<char>, Seq<char>)>) -> Seq<Seq<char>> {
    pairs.map_values(|pair: (Seq<char>, Seq<char>)| pair.0)
}

proof fn lemma_bytes_before_transitive(a: Seq<u8>, b: Seq<u8>, c: Seq<u8>)
    requires
        bytes_before(a, b),
        bytes_before(b, c),
    ensures
        bytes_before(a, c),
    decreases a.len(),
{
    if a.len() > 0 && b.len() > 0 && c.len() > 0 && a[0] == b[0] && b[0] == c[0] {
        lemma_bytes_before_transitive(a.drop_first(), b.drop_first(), c.drop_first());
    }
}

proof fn lemma_bytes_before_asymmetric(a: Seq<u8>, b: Seq<u8>)
    ensures
        !(bytes_before(a, b) && bytes_before(b, a)),
    decreases a.len(),
{
    if a.len() > 0 && b.len() > 0 && a[0] == b[0] {
        lemma_bytes_before_asymmetric(a.drop_first(), b.drop_first());
    }
}

proof fn lemma_bytes_before_total(a: Seq<u8>, b: Seq<u8>)
    requires
        a != b,
    ensures
        bytes_before(a, b) || bytes_before(b, a),
    decreases a.len(),
{
    if a.len() > 0 && b.len() > 0 && a[0] == b[0] {
        if a.drop_first() == b.drop_first() {
            assert(a =~= seq![a[0]] + a.drop_first());
            assert(b =~= seq![b[0]] + b.drop_first());
        }
        lemma_bytes_before_total(a.drop_first(), b.drop_first());
    } else if a.len() == 0 && b.len() == 0 {
        assert(a =~= b);
    }
}

/// `String`'s order on texts is a strict total order.
pub proof fn lemma_text_order(a: Seq<char>, b: Seq<char>, c: Seq<char>)
    ensures
        !text_before(a, a),
        text_before(a, b) ==> !text_before(b, a),
        a != b ==> text_before(a, b) || text_before(b, a),
        text_before(a, b) && text_before(b, c) ==> text_before(a, c),
{
    lemma_bytes_before_asymmetric(encode_utf8(a), encode_utf8(a));
    lemma_bytes_before_asymmetric(encode_utf8(a), encode_utf8(b));
    if a != b {
        vstd::utf8::encode_utf8_decode_utf8(a);
        vstd::utf8::encode_utf8_decode_utf8(b);
        lemma_bytes_before_total(encode_utf8(a), encode_utf8(b));
    }
    if text_before(a, b) && text_before(b, c) {
        lemma_bytes_before_transitive(encode_utf8(a), encode_utf8(b), encode_utf8(c));
    }
}

proof fn lemma_insert_name(names: Seq<Seq<char>>, name: Seq<char>)
    requires
        strictly_ordered(names),
    ensures
        strictly_ordered(insert_name(names, name)),
        forall|other: Seq<char>|
            #![trigger insert_name(names, name).contains(other)]
            #![trigger names.contains(other)]
            insert_name(names, name).contains(other) <==> (names.contains(other) || other == name),
    decreases names.len(),
{
    let inserted = insert_name(names, name);
    if names.len() == 0 {
        assert(inserted[0] == name);
    } else if names[0] == name {
    } else if text_before(name, names[0]) {
        assert forall|i: int, j: int| 0 <= i < j < inserted.len() implies text_before(
            #[trigger] inserted[i],
            #[trigger] inserted[j],
        ) by {
            if i == 0 && j > 1 {
                lemma_text_order(name, names[0], names[j - 1]);
            }
            if i > 0 {
                assert(inserted[i] == names[i - 1] && inserted[j] == names[j - 1]);
            }
        }
        assert forall|other: Seq<char>|
            inserted.contains(other) <==> (names.contains(other) || other == name) by {
            if names.contains(other) {
                let k = choose|k: int| 0 <= k < names.len() && names[k] == other;
                assert(inserted[k + 1] == other);
            }
            if inserted.contains(other) {
                let k = choose|k: int| 0 <= k < inserted.len() && inserted[k] == other;
                if k > 0 {
                    assert(names[k - 1] == other);
                }
            }
            if other == name {
                assert(inserted[0] == name);
            }
        }
    } else {
        let rest = names.drop_first();
        assert(strictly_ordered(rest)) by {
            assert forall|i: int, j: int| 0 <= i < j < rest.len() implies text_before(
                #[trigger] rest[i],
                #[trigger] rest[j],
            ) by {
                assert(rest[i] == names[i + 1] && rest[j] == names[j + 1]);
            }
        }
        lemma_insert_name(rest, name);
        let tail = insert_name(rest, name);
        lemma_text_order(names[0], name, names[0]);
        assert(text_before(names[0], name));
        assert forall|k: int| 0 <= k < tail.len() implies text_before(names[0], #[trigger] tail[k]) by {
            assert(tail.contains(tail[k]));
            if tail[k] != name {
                assert(rest.contains(tail[k]));
                let m = choose|m: int| 0 <= m < rest.len() && rest[m] == tail[k];
                assert(rest[m] == names[m + 1]);
                assert(text_before(names[0], names[m + 1]));
            }
        }
        assert forall|i: int, j: int| 0 <= i < j < inserted.len() implies text_before(
            #[trigger] inserted[i],
            #[trigger] inserted[j],
        ) by {
            if i == 0 {
                assert(inserted[j] == tail[j - 1]);
            } else {
                assert(inserted[i] == tail[i - 1] && inserted[j] == tail[j - 1]);
            }
        }
        assert forall|other: Seq<char>|
            inserted.contains(other) <==> (names.contains(other) || other == name) by {
            if names.contains(other) {
                let k = choose|k: int| 0 <= k < names.len() && names[k] == other;
                if k == 0 {
                    assert(inserted[0] == other);
                } else {
                    assert(rest[k - 1] == other);
                    assert(tail.contains(other));
                    let m = choose|m: int| 0 <= m < tail.len() && tail[m] == other;
                    assert(inserted[m + 1] == other);
                }
            }
            if other == name {
                assert(tail.contains(name));
                let m = choose|m: int| 0 <= m < tail.len() && tail[m] == name;
                assert(inserted[m + 1] == name);
            }
            if inserted.contains(other) {
                let k = choose|k: int| 0 <= k < inserted.len() && inserted[k] == other;
                if k == 0 {
                    assert(names[0] == other);
                } else {
                    assert(tail[k - 1] == other);
                    assert(tail.contains(other));
                    if other != name {
                        let m = choose|m: int| 0 <= m < rest.len() && rest[m] == other;
                        assert(names[m + 1] == other);
                    }
                }
            }
        }
    }
}

/// The set of a list of names holds each listed name once, in name order,
/// and nothing else.
pub proof fn lemma_name_set(names: Seq<Seq<char>>)
    ensures
        strictly_ordered(name_set(names)),
        forall|name: Seq<char>| name_set(names).contains(name) <==> names.contains(name),
    decreases names.len(),
{
    if names.len() > 0 {
        let earlier = names.drop_last();
        lemma_name_set(earlier);
        lemma_insert_name(name_set(earlier), names.last());
        assert forall|name: Seq<char>| name_set(names).contains(name) <==> names.contains(name) by {
            if names.contains(name) {
                let k = choose|k: int| 0 <= k < names.len() && names[k] == name;
                if k < names.len() - 1 {
                    assert(earlier[k] == name);
                }
            }
            if earlier.contains(name) {
                let k = choose|k: int| 0 <= k < earlier.len() && earlier[k] == name;
                assert(names[k] == name);
            }
            if name == names.last() {
                assert(names[names.len() - 1] == name);
            }
        }
    }
}

proof fn lemma_insert_value_names(pairs: Seq<(Seq<char>, Seq<char>)>, pair: (Seq<char>, Seq<char>))
    ensures
        names_of(insert_value(pairs, pair)) == insert_name(names_of(pairs), pair.0),
    decreases pairs.len(),
{
    let names = names_of(pairs);
    if pairs.len() > 0 {
        assert(names_of(pairs.drop_first()) =~= names.drop_first());
        lemma_insert_value_names(pairs.drop_first(), pair);
        assert(names[0] == pairs[0].0);
        if names[0] == pair.0 {
            assert(names_of(seq![pair] + pairs.drop_first()) =~= names);
        } else if text_before(pair.0, names[0]) {
            assert(names_of(seq![pair] + pairs) =~= seq![pair.0] + names);
        } else {
            assert(names_of(seq![pairs[0]] + insert_value(pairs.drop_first(), pair)) =~= seq![
                names[0],
            ] + names_of(insert_value(pairs.drop_first(), pair)));
        }
    } else {
        assert(names_of(seq![pair]) =~= seq![pair.0]);
    }
}

/// The map of a list of pairs holds each listed name once, in name order,
/// and no other name.
pub proof fn lemma_value_map(pairs: Seq<(Seq<char>, Seq<char>)>)
    ensures
        names_of(value_map(pairs)) == name_set(names_of(pairs)),
        strictly_ordered(names_of(value_map(pairs))),
        forall|name: Seq<char>|
            names_of(value_map(pairs)).contains(name) <==> names_of(pairs).contains(name),
    decreases pairs.len(),
{
    if pairs.len() > 0 {
        let earlier = pairs.drop_last();
        lemma_value_map(earlier);
        lemma_insert_value_names(value_map(earlier), pairs.last());
        assert(names_of(pairs).drop_last() =~= names_of(earlier));
    } else {
        assert(names_of(value_map(pairs)) =~= Seq::<Seq<char>>::empty());
    }
    lemma_name_set(names_of(pairs));
}

} // verus!
