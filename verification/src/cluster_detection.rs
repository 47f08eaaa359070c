//! Telling ZooKeeper-based and KRaft clusters apart from `server.properties`.
use vstd::prelude::*;
use crate::text::{chars_of, contains, find, find_char_from, lemma_find_char_at, lemma_find_char_none, lines, split_lines, str_contains, string_of, trim, trim_bounds, trimmed};
use crate::strmap::StrMap;
use crate::snapshot::ClusterMode;
use crate::json::{JsonValue, member};
use crate::text::{concat, str_eq};

verus! {

/// The key and value a `server.properties` line defines, if any: the line is trimmed,
/// blank lines and `#` comments define nothing, the key is what stands before the
/// first `=`, the value what follows it, both trimmed, and an empty key defines nothing.
pub open spec fn property_of_line(line: Seq<char>) -> Option<(Seq<char>, Seq<char>)> {
    let t = trim(line);
    if t.len() == 0 || t[0] == '#' {
        None
    } else {
        match find(t, seq!['=']) {
            None => None,
            Some(e) => {
                let k = trim(t.take(e));
                if k.len() == 0 {
                    None
                } else {
                    Some((k, trim(t.skip(e + 1))))
                }
            },
        }
    }
}

/// The properties defined by a sequence of lines; a later definition of a key wins.
pub open spec fn properties_of_lines(ls: Seq<Seq<char>>) -> Map<Seq<char>, Seq<char>>
    decreases ls.len(),
{
    if ls.len() == 0 {
        Map::empty()
    } else {
        let m = properties_of_lines(ls.drop_last());
        match property_of_line(ls.last()) {
            Some((k, v)) => m.insert(k, v),
            None => m,
        }
    }
}

/// The properties that a `server.properties` text defines.
pub open spec fn properties_of(content: Seq<char>) -> Map<Seq<char>, Seq<char>> {
    properties_of_lines(lines(content))
}

/// `process.roles` is set and names the controller role.
pub open spec fn has_controller_role(p: Map<Seq<char>, Seq<char>>) -> bool {
    p.contains_key("process.roles"@) && contains(p["process.roles"@], "controller"@)
}

/// The ZooKeeper rules: `zookeeper.connect` is set to a value that is not blank, the
/// controller role is not among `process.roles`, `broker.id` is set, and neither
/// `node.id` nor `controller.quorum.voters` is.
pub open spec fn zookeeper_mode(p: Map<Seq<char>, Seq<char>>) -> bool {
    &&& p.contains_key("zookeeper.connect"@)
    &&& trim(p["zookeeper.connect"@]).len() > 0
    &&& !has_controller_role(p)
    &&& p.contains_key("broker.id"@)
    &&& !p.contains_key("node.id"@)
    &&& !p.contains_key("controller.quorum.voters"@)
}

/// The KRaft rules: `zookeeper.connect` is absent, the controller role is among
/// `process.roles`, and `node.id` and `controller.quorum.voters` are set (`broker.id`
/// may be set as well).
pub open spec fn kraft_mode(p: Map<Seq<char>, Seq<char>>) -> bool {
    &&& !p.contains_key("zookeeper.connect"@)
    &&& has_controller_role(p)
    &&& p.contains_key("node.id"@)
    &&& p.contains_key("controller.quorum.voters"@)
}

/// The mode one `server.properties` text indicates, KRaft tested first.
pub open spec fn mode_of_properties(p: Map<Seq<char>, Seq<char>>) -> ClusterMode {
    if kraft_mode(p) {
        ClusterMode::Kraft
    } else if zookeeper_mode(p) {
        ClusterMode::Zookeeper
    } else {
        ClusterMode::Unknown
    }
}

/// Reads the properties a `server.properties` text defines.
pub fn parse_server_properties(content: &str) -> (props: StrMap)
    ensures
        props@ == properties_of(content@),
{
    let ls = split_lines(content);
    let mut props = StrMap::new();
    let mut i: usize = 0;
    while i < ls.len()
        invariant
            i <= ls@.len(),
            ls@.map_values(|x: String| x@) == lines(content@),
            props@ == properties_of_lines(lines(content@).take(i as int)),
        decreases ls@.len() - i,
    {
        let ghost all = lines(content@);
        proof {
            assert(all.take(i + 1).drop_last() =~= all.take(i as int));
            assert(all.take(i + 1).last() == ls@[i as int]@);
        }
        match parse_property_line(&ls[i]) {
            Some((k, v)) => {
                props.insert(k, v);
            },
            None => {},
        }
        i = i + 1;
    }
    proof {
        assert(lines(content@).take(i as int) =~= lines(content@));
    }
    props
}

/// The key and value one line defines, as `property_of_line` says.
pub fn parse_property_line(line: &String) -> (r: Option<(String, String)>)
    ensures
        match r {
            Some((k, v)) => property_of_line(line@) == Some((k@, v@)),
            None => property_of_line(line@) is None,
        },
{
    let v = chars_of(line.as_str());
    let (a, b) = trim_bounds(&v, 0, v.len());
    proof {
        assert(v@.subrange(0, v@.len() as int) =~= v@);
    }
    let ghost t = v@.subrange(a as int, b as int);
    if a == b || v[a] == '#' {
        return None;
    }
    assert(t[0] == v@[a as int]);
    match find_char_from(&v, '=', a) {
        Some(e) if e < b => {
            proof {
                assert(t[e - a] == v@[e as int]);
                assert forall|j: int| 0 <= j < e - a implies t[j] != '=' by {
                    assert(t[j] == v@[a + j]);
                }
                lemma_find_char_at(t, '=', e - a);
            }
            let (ka, kb) = trim_bounds(&v, a, e);
            if ka == kb {
                proof {
                    assert(t.take(e - a) =~= v@.subrange(a as int, e as int));
                }
                return None;
            }
            let (va, vb) = trim_bounds(&v, e + 1, b);
            proof {
                assert(t.take(e - a) =~= v@.subrange(a as int, e as int));
                assert(t.skip(e - a + 1) =~= v@.subrange(e + 1, b as int));
            }
            let key = string_of(&v, ka, kb);
            let value = string_of(&v, va, vb);
            Some((key, value))
        },
        _ => {
            proof {
                assert forall|j: int| 0 <= j < t.len() implies t[j] != '=' by {
                    assert(t[j] == v@[a + j]);
                }
                lemma_find_char_none(t, '=');
            }
            None
        },
    }
}

/// Whether `process.roles` names the controller role.
fn controller_role(properties: &StrMap) -> (b: bool)
    ensures
        b == has_controller_role(properties@),
{
    match properties.get("process.roles") {
        Some(roles) => str_contains(roles.as_str(), "controller"),
        None => false,
    }
}

/// Whether the properties describe a ZooKeeper-mode broker.
pub fn is_zookeeper_mode(properties: &StrMap) -> (b: bool)
    ensures
        b == zookeeper_mode(properties@),
{
    let has_zk_connect = match properties.get("zookeeper.connect") {
        Some(zk_connect) => {
            let t = trimmed(zk_connect.as_str());
            !t.as_str().is_empty()
        },
        None => false,
    };
    let has_controller_role = controller_role(properties);
    let has_broker_id = properties.contains_key("broker.id");
    let has_node_id = properties.contains_key("node.id");
    let has_quorum_voters = properties.contains_key("controller.quorum.voters");
    has_zk_connect && !has_controller_role && has_broker_id && !has_node_id && !has_quorum_voters
}

/// Whether the properties describe a KRaft-mode node.
pub fn is_kraft_mode(properties: &StrMap) -> (b: bool)
    ensures
        b == kraft_mode(properties@),
{
    let has_zk_connect = properties.contains_key("zookeeper.connect");
    let has_controller_role = controller_role(properties);
    let has_node_id = properties.contains_key("node.id");
    let has_quorum_voters = properties.contains_key("controller.quorum.voters");
    !has_zk_connect && has_controller_role && has_node_id && has_quorum_voters
}

/// The mode a single `server.properties` text indicates: KRaft when its properties
/// meet the KRaft rules, else ZooKeeper when they meet the ZooKeeper rules, else unknown.
pub fn detect_cluster_mode_from_config(server_properties_content: &str) -> (mode: ClusterMode)
    ensures
        mode == mode_of_properties(properties_of(server_properties_content@)),
{
    let properties = parse_server_properties(server_properties_content);
    if is_kraft_mode(&properties) {
        ClusterMode::Kraft
    } else if is_zookeeper_mode(&properties) {
        ClusterMode::Zookeeper
    } else {
        ClusterMode::Unknown
    }
}

/// The `server.properties` texts among the members of the top-level object: every
/// member whose name contains `server.properties` and whose value is a string.
pub open spec fn top_level_configs(ms: Seq<(String, JsonValue)>) -> Seq<(Seq<char>, Seq<char>)>
    decreases ms.len(),
{
    if ms.len() == 0 {
        Seq::empty()
    } else {
        let rest = top_level_configs(ms.drop_last());
        let m = ms.last();
        match m.1.spec_str() {
            Some(c) => if contains(m.0@, "server.properties"@) {
                rest.push((m.0@, c))
            } else {
                rest
            },
            None => rest,
        }
    }
}

/// The `server.properties` texts among one broker's `configs` members, named
/// `<broker>/configs/server.properties`.
pub open spec fn configs_of_broker(broker: Seq<char>, cs: Seq<(String, JsonValue)>) -> Seq<
    (Seq<char>, Seq<char>),
>
    decreases cs.len(),
{
    if cs.len() == 0 {
        Seq::empty()
    } else {
        let rest = configs_of_broker(broker, cs.drop_last());
        let c = cs.last();
        match c.1.spec_str() {
            Some(content) => if c.0@ == "server.properties"@ {
                rest.push((broker + "/configs/"@ + c.0@, content))
            } else {
                rest
            },
            None => rest,
        }
    }
}

/// The `configs` members of one broker entry, if it has an object of them.
pub open spec fn broker_config_members(b: JsonValue) -> Option<Seq<(String, JsonValue)>> {
    match b.spec_members() {
        Some(bm) => match member(bm, "configs"@) {
            Some(cv) => cv.spec_members(),
            None => None,
        },
        None => None,
    }
}

/// The `server.properties` texts of every broker under `brokers`, broker by broker.
pub open spec fn nested_configs(bs: Seq<(String, JsonValue)>) -> Seq<(Seq<char>, Seq<char>)>
    decreases bs.len(),
{
    if bs.len() == 0 {
        Seq::empty()
    } else {
        let rest = nested_configs(bs.drop_last());
        let b = bs.last();
        match broker_config_members(b.1) {
            Some(cm) => rest + configs_of_broker(b.0@, cm),
            None => rest,
        }
    }
}

/// Every `server.properties` text in the collected configuration data, with the path it
/// is known by: first those among the top-level members, then those under `brokers`.
pub open spec fn server_properties_configs(data: JsonValue) -> Seq<(Seq<char>, Seq<char>)> {
    let top = match data.spec_members() {
        Some(ms) => top_level_configs(ms),
        None => Seq::empty(),
    };
    let nested = match data.spec_get("brokers"@) {
        Some(b) => match b.spec_members() {
            Some(bs) => nested_configs(bs),
            None => Seq::empty(),
        },
        None => Seq::empty(),
    };
    top + nested
}

/// How many of the texts indicate the mode `m`, ZooKeeper tested first.
pub open spec fn count_mode(cs: Seq<(Seq<char>, Seq<char>)>, m: ClusterMode) -> nat
    decreases cs.len(),
{
    if cs.len() == 0 {
        0
    } else {
        count_mode(cs.drop_last(), m) + if classify(cs.last().1) == m {
            1nat
        } else {
            0nat
        }
    }
}

/// The mode one text indicates, ZooKeeper tested first.
pub open spec fn classify(content: Seq<char>) -> ClusterMode {
    let p = properties_of(content);
    if zookeeper_mode(p) {
        ClusterMode::Zookeeper
    } else if kraft_mode(p) {
        ClusterMode::Kraft
    } else {
        ClusterMode::Unknown
    }
}

/// The mode of the whole cluster: ZooKeeper when some texts indicate ZooKeeper and none
/// KRaft, KRaft when some indicate KRaft and none ZooKeeper, and unknown otherwise
/// (no texts, no decision, or both modes seen).
pub open spec fn overall_mode(cs: Seq<(Seq<char>, Seq<char>)>) -> ClusterMode {
    let zk = count_mode(cs, ClusterMode::Zookeeper);
    let kraft = count_mode(cs, ClusterMode::Kraft);
    if zk > 0 && kraft == 0 {
        ClusterMode::Zookeeper
    } else if kraft > 0 && zk == 0 {
        ClusterMode::Kraft
    } else {
        ClusterMode::Unknown
    }
}

/// Collects the `server.properties` texts in the configuration data with their paths.
pub fn extract_server_properties_configs(config_data: &JsonValue) -> (r: Vec<(String, String)>)
    ensures
        r@.map_values(|e: (String, String)| (e.0@, e.1@)) == server_properties_configs(*config_data),
{
    let mut configs: Vec<(String, String)> = Vec::new();
    if let Some(config_obj) = config_data.as_object() {
        let mut i: usize = 0;
        while i < config_obj.len()
            invariant
                i <= config_obj@.len(),
                configs@.map_values(|e: (String, String)| (e.0@, e.1@)) == top_level_configs(
                    config_obj@.take(i as int),
                ),
            decreases config_obj@.len() - i,
        {
            let (file_path, content) = (&config_obj[i].0, &config_obj[i].1);
            let ghost before = configs@.map_values(|e: (String, String)| (e.0@, e.1@));
            proof {
                assert(config_obj@.take(i + 1).drop_last() =~= config_obj@.take(i as int));
            }
            if str_contains(file_path.as_str(), "server.properties") {
                if let Some(content_str) = content.as_str() {
                    configs.push((file_path.clone(), content_str.clone()));
                    assert(configs@.map_values(|e: (String, String)| (e.0@, e.1@)) =~= before.push(
                        (file_path@, content_str@),
                    ));
                }
            }
            i = i + 1;
        }
        assert(config_obj@.take(i as int) =~= config_obj@);
    } else {
        assert(configs@.map_values(|e: (String, String)| (e.0@, e.1@)) =~= Seq::<
            (Seq<char>, Seq<char>),
        >::empty());
    }
    let ghost top = configs@.map_values(|e: (String, String)| (e.0@, e.1@));
    if let Some(brokers_data) = config_data.get("brokers") {
        if let Some(brokers_obj) = brokers_data.as_object() {
            let mut i: usize = 0;
            assert(top + nested_configs(brokers_obj@.take(0)) =~= top);
            while i < brokers_obj.len()
                invariant
                    i <= brokers_obj@.len(),
                    configs@.map_values(|e: (String, String)| (e.0@, e.1@)) == top
                        + nested_configs(brokers_obj@.take(i as int)),
                decreases brokers_obj@.len() - i,
            {
                let (broker_name, broker_data) = (&brokers_obj[i].0, &brokers_obj[i].1);
                proof {
                    assert(brokers_obj@.take(i + 1).drop_last() =~= brokers_obj@.take(i as int));
                }
                let ghost before = configs@.map_values(|e: (String, String)| (e.0@, e.1@));
                let found = configs_from_broker(broker_name, broker_data);
                match found {
                    Some(list) => {
                        let mut j: usize = 0;
                        while j < list.len()
                            invariant
                                j <= list@.len(),
                                configs@.map_values(|e: (String, String)| (e.0@, e.1@)) == before
                                    + list@.take(j as int).map_values(
                                    |e: (String, String)| (e.0@, e.1@),
                                ),
                            decreases list@.len() - j,
                        {
                            let ghost b2 = configs@.map_values(|e: (String, String)| (e.0@, e.1@));
                            let e = (list[j].0.clone(), list[j].1.clone());
                            configs.push(e);
                            proof {
                                assert(configs@.map_values(|e: (String, String)| (e.0@, e.1@))
                                    =~= b2.push((list@[j as int].0@, list@[j as int].1@)));
                                assert(list@.take(j + 1).map_values(
                                    |e: (String, String)| (e.0@, e.1@),
                                ) =~= list@.take(j as int).map_values(
                                    |e: (String, String)| (e.0@, e.1@),
                                ).push((list@[j as int].0@, list@[j as int].1@)));
                            }
                            j = j + 1;
                        }
                        assert(list@.take(j as int) =~= list@);
                    },
                    None => {
                        assert(before + Seq::<(Seq<char>, Seq<char>)>::empty() =~= before);
                    },
                }
                i = i + 1;
            }
            assert(brokers_obj@.take(i as int) =~= brokers_obj@);
        } else {
            assert(top + Seq::<(Seq<char>, Seq<char>)>::empty() =~= top);
        }
    } else {
        assert(top + Seq::<(Seq<char>, Seq<char>)>::empty() =~= top);
    }
    configs
}

/// The `server.properties` texts under one broker's `configs` object, or nothing when
/// the broker entry has no such object.
fn configs_from_broker(broker_name: &String, broker_data: &JsonValue) -> (r: Option<
    Vec<(String, String)>,
>)
    ensures
        match broker_config_members(*broker_data) {
            Some(cm) => r is Some && r->0@.map_values(|e: (String, String)| (e.0@, e.1@))
                == configs_of_broker(broker_name@, cm),
            None => r is None,
        },
{
    let broker_obj = match broker_data.as_object() {
        Some(o) => o,
        None => return None,
    };
    let configs_data = match get_member(broker_obj, "configs") {
        Some(c) => c,
        None => return None,
    };
    let configs_obj = match configs_data.as_object() {
        Some(o) => o,
        None => return None,
    };
    let mut out: Vec<(String, String)> = Vec::new();
    let mut i: usize = 0;
    while i < configs_obj.len()
        invariant
            i <= configs_obj@.len(),
            out@.map_values(|e: (String, String)| (e.0@, e.1@)) == configs_of_broker(
                broker_name@,
                configs_obj@.take(i as int),
            ),
        decreases configs_obj@.len() - i,
    {
        let (config_name, config_content) = (&configs_obj[i].0, &configs_obj[i].1);
        proof {
            assert(configs_obj@.take(i + 1).drop_last() =~= configs_obj@.take(i as int));
        }
        let ghost before = out@.map_values(|e: (String, String)| (e.0@, e.1@));
        if str_eq(config_name.as_str(), "server.properties") {
            if let Some(content_str) = config_content.as_str() {
                let with_dir = concat(broker_name.as_str(), "/configs/");
                let file_path = concat(with_dir.as_str(), config_name.as_str());
                out.push((file_path, content_str.clone()));
                assert(out@.map_values(|e: (String, String)| (e.0@, e.1@)) =~= before.push(
                    (broker_name@ + "/configs/"@ + config_name@, content_str@),
                ));
            }
        }
        i = i + 1;
    }
    assert(configs_obj@.take(i as int) =~= configs_obj@);
    Some(out)
}

/// The value of the first member named `key`.
pub fn get_member<'a>(members: &'a Vec<(String, JsonValue)>, key: &str) -> (r: Option<&'a JsonValue>)
    ensures
        match r {
            Some(v) => member(members@, key@) == Some(*v),
            None => member(members@, key@) is None,
        },
{
    let mut i: usize = 0;
    assert(members@.skip(0) =~= members@);
    while i < members.len()
        invariant
            i <= members@.len(),
            member(members@, key@) == member(members@.skip(i as int), key@),
        decreases members@.len() - i,
    {
        proof {
            assert(members@.skip(i as int).drop_first() =~= members@.skip(i + 1));
            assert(members@.skip(i as int)[0] == members@[i as int]);
        }
        if members[i].0 == key.to_owned() {
            return Some(&members[i].1);
        }
        i = i + 1;
    }
    None
}

/// The mode of the cluster as its `server.properties` texts indicate it: ZooKeeper or
/// KRaft when the texts that decide agree, unknown when there are none, none decides,
/// or both modes occur.
pub fn detect_cluster_mode(config_data: &JsonValue) -> (mode: ClusterMode)
    ensures
        mode == overall_mode(server_properties_configs(*config_data)),
{
    let configs = extract_server_properties_configs(config_data);
    let ghost cs = configs@.map_values(|e: (String, String)| (e.0@, e.1@));
    let mut zookeeper_count: usize = 0;
    let mut kraft_count: usize = 0;
    let mut i: usize = 0;
    while i < configs.len()
        invariant
            i <= configs@.len(),
            cs == configs@.map_values(|e: (String, String)| (e.0@, e.1@)),
            zookeeper_count == count_mode(cs.take(i as int), ClusterMode::Zookeeper),
            kraft_count == count_mode(cs.take(i as int), ClusterMode::Kraft),
            zookeeper_count <= i,
            kraft_count <= i,
        decreases configs@.len() - i,
    {
        proof {
            assert(cs.take(i + 1).drop_last() =~= cs.take(i as int));
            assert(cs.take(i + 1).last() == cs[i as int]);
        }
        let properties = parse_server_properties(configs[i].1.as_str());
        if is_zookeeper_mode(&properties) {
            zookeeper_count = zookeeper_count + 1;
        } else if is_kraft_mode(&properties) {
            kraft_count = kraft_count + 1;
        }
        i = i + 1;
    }
    assert(cs.take(i as int) =~= cs);
    if configs.len() == 0 {
        ClusterMode::Unknown
    } else if zookeeper_count > 0 && kraft_count == 0 {
        ClusterMode::Zookeeper
    } else if kraft_count > 0 && zookeeper_count == 0 {
        ClusterMode::Kraft
    } else {
        ClusterMode::Unknown
    }
}

/// No set of properties meets both the ZooKeeper and the KRaft rules.
pub proof fn lemma_modes_exclusive(p: Map<Seq<char>, Seq<char>>)
    ensures
        !(zookeeper_mode(p) && kraft_mode(p)),
{
}

} // verus!
