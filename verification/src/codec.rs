//! The JSON form of a layout document: how a JSON value is read as a
//! document, and how a document is written as a JSON value.
//!
//! A document is an object with the members `version`, `root_nodes`,
//! `nodes` and `metadata`.  Ids are written as UUID text.  Members that the
//! format does not name are ignored; where an object has a member twice,
//! the last one counts.

use crate::error::{Error, ErrorView};
use crate::json::{
    json_parse, json_text, json_text_pretty, lemma_array_view, lemma_object_view, members_view,
    parse_text, print_text, print_text_pretty, JsonValue, JsonView,
};
use crate::model::{DocView, Fault, NodeView};
use crate::serialization::{Layout, LayoutNode, SerializedLayout};
use crate::strmap::{has_key, lemma_pairs_dom, pairs_to_map, StrMap};
use crate::widget::{
    id_from_str, id_parse, id_text, texts, ConfigView, WidgetConfig, WidgetId,
};
use std::collections::HashMap;
use vstd::prelude::*;
use vstd::std_specs::hash::group_hash_axioms;
use vstd::string::StringExecFns;

verus! {

broadcast use group_hash_axioms;

/// The members of a JSON object.
pub type Members = Seq<(Seq<char>, JsonView)>;

/// What reading a part of a document gives: the part, or the reason why
/// there is none.
pub type Decoded<T> = Result<T, Seq<char>>;

/// The reason given where a member is not there.
pub open spec fn missing_field(name: Seq<char>) -> Seq<char> {
    "missing field `"@ + name + "`"@
}

/// The reason given where a member, or an item of it, is not of the kind
/// of value that the format asks for.
pub open spec fn wrong_type(name: Seq<char>) -> Seq<char> {
    "invalid type for field `"@ + name + "`"@
}

/// The reason given where a text is not the text of an id.
pub open spec fn bad_id(text: Seq<char>) -> Seq<char> {
    "invalid widget id `"@ + text + "`"@
}

/// The reason given where a document, a node or a configuration is not a
/// JSON object.
pub open spec fn not_an_object(what: Seq<char>) -> Seq<char> {
    "expected a JSON object for "@ + what
}

/// The value of the member of this name, the last one where there are
/// several.
pub open spec fn member(members: Members, name: Seq<char>) -> Option<JsonView> {
    if pairs_to_map(members).contains_key(name) {
        Some(pairs_to_map(members)[name])
    } else {
        None
    }
}

/// The text of a member that must be a string.
pub open spec fn text_field(members: Members, name: Seq<char>) -> Decoded<Seq<char>> {
    match member(members, name) {
        Some(JsonView::String(text)) => Ok(text),
        Some(_) => Err(wrong_type(name)),
        None => Err(missing_field(name)),
    }
}

/// The items of a member that must be an array.
pub open spec fn array_field(members: Members, name: Seq<char>) -> Decoded<Seq<JsonView>> {
    match member(members, name) {
        Some(JsonView::Array(items)) => Ok(items),
        Some(_) => Err(wrong_type(name)),
        None => Err(missing_field(name)),
    }
}

/// The members of a member that must be an object.
pub open spec fn object_field(members: Members, name: Seq<char>) -> Decoded<Members> {
    match member(members, name) {
        Some(JsonView::Object(inner)) => Ok(inner),
        Some(_) => Err(wrong_type(name)),
        None => Err(missing_field(name)),
    }
}

/// A list of texts, read from an array of strings.
pub open spec fn decode_texts(items: Seq<JsonView>, name: Seq<char>) -> Decoded<Seq<Seq<char>>>
    decreases items.len(),
{
    if items.len() == 0 {
        Ok(Seq::empty())
    } else {
        match decode_texts(items.drop_last(), name) {
            Ok(front) => match items.last() {
                JsonView::String(text) => Ok(front.push(text)),
                _ => Err(wrong_type(name)),
            },
            Err(e) => Err(e),
        }
    }
}

/// An id, read from a string.
pub open spec fn decode_id(value: JsonView, name: Seq<char>) -> Decoded<u128> {
    match value {
        JsonView::String(text) => match id_parse(text) {
            Some(id) => Ok(id),
            None => Err(bad_id(text)),
        },
        _ => Err(wrong_type(name)),
    }
}

/// A list of ids, read from an array of strings.
pub open spec fn decode_ids(items: Seq<JsonView>, name: Seq<char>) -> Decoded<Seq<u128>>
    decreases items.len(),
{
    if items.len() == 0 {
        Ok(Seq::empty())
    } else {
        match decode_ids(items.drop_last(), name) {
            Ok(front) => match decode_id(items.last(), name) {
                Ok(id) => Ok(front.push(id)),
                Err(e) => Err(e),
            },
            Err(e) => Err(e),
        }
    }
}

/// A map from names to texts, read from an object whose values are
/// strings.
pub open spec fn decode_styles(members: Members, name: Seq<char>) -> Decoded<
    Map<Seq<char>, Seq<char>>,
>
    decreases members.len(),
{
    if members.len() == 0 {
        Ok(Map::empty())
    } else {
        match decode_styles(members.drop_last(), name) {
            Ok(front) => match members.last().1 {
                JsonView::String(text) => Ok(front.insert(members.last().0, text)),
                _ => Err(wrong_type(name)),
            },
            Err(e) => Err(e),
        }
    }
}

/// A widget configuration, read from its JSON object.
pub open spec fn decode_config(value: JsonView) -> Decoded<ConfigView> {
    match value {
        JsonView::Object(members) => match text_field(members, "widget_type"@) {
            Ok(widget_type) => match object_field(members, "properties"@) {
                Ok(properties) => match array_field(members, "css_classes"@) {
                    Ok(classes) => match decode_texts(classes, "css_classes"@) {
                        Ok(css_classes) => match object_field(members, "inline_styles"@) {
                            Ok(styles) => match decode_styles(styles, "inline_styles"@) {
                                Ok(inline_styles) => Ok(
                                    ConfigView {
                                        widget_type,
                                        properties: pairs_to_map(properties),
                                        css_classes,
                                        inline_styles,
                                    },
                                ),
                                Err(e) => Err(e),
                            },
                            Err(e) => Err(e),
                        },
                        Err(e) => Err(e),
                    },
                    Err(e) => Err(e),
                },
                Err(e) => Err(e),
            },
            Err(e) => Err(e),
        },
        _ => Err(not_an_object("config"@)),
    }
}

/// A parent link: no member or `null` for none, else the text of an id.
pub open spec fn decode_parent(members: Members) -> Decoded<Option<u128>> {
    match member(members, "parent"@) {
        None => Ok(None),
        Some(JsonView::Null) => Ok(None),
        Some(value) => match decode_id(value, "parent"@) {
            Ok(id) => Ok(Some(id)),
            Err(e) => Err(e),
        },
    }
}

/// A node, read from its JSON object.
pub open spec fn decode_node(value: JsonView) -> Decoded<NodeView> {
    match value {
        JsonView::Object(members) => match member(members, "config"@) {
            Some(config_value) => match decode_config(config_value) {
                Ok(config) => match array_field(members, "children"@) {
                    Ok(items) => match decode_ids(items, "children"@) {
                        Ok(children) => match decode_parent(members) {
                            Ok(parent) => match object_field(members, "metadata"@) {
                                Ok(metadata) => Ok(
                                    NodeView {
                                        config,
                                        children,
                                        parent,
                                        metadata: pairs_to_map(metadata),
                                    },
                                ),
                                Err(e) => Err(e),
                            },
                            Err(e) => Err(e),
                        },
                        Err(e) => Err(e),
                    },
                    Err(e) => Err(e),
                },
                Err(e) => Err(e),
            },
            None => Err(missing_field("config"@)),
        },
        _ => Err(not_an_object("node"@)),
    }
}

/// The node map, read from an object whose names are id texts.  Where two
/// names are texts of one id, the later member counts.
pub open spec fn decode_nodes(members: Members) -> Decoded<Map<u128, NodeView>>
    decreases members.len(),
{
    if members.len() == 0 {
        Ok(Map::empty())
    } else {
        match decode_nodes(members.drop_last()) {
            Ok(front) => match id_parse(members.last().0) {
                Some(id) => match decode_node(members.last().1) {
                    Ok(node) => Ok(front.insert(id, node)),
                    Err(e) => Err(e),
                },
                None => Err(bad_id(members.last().0)),
            },
            Err(e) => Err(e),
        }
    }
}

/// A document, read from its JSON object.
pub open spec fn decode_document(value: JsonView) -> Decoded<DocView> {
    match value {
        JsonView::Object(members) => match text_field(members, "version"@) {
            Ok(version) => match array_field(members, "root_nodes"@) {
                Ok(items) => match decode_ids(items, "root_nodes"@) {
                    Ok(root_nodes) => match object_field(members, "nodes"@) {
                        Ok(node_members) => match decode_nodes(node_members) {
                            Ok(nodes) => match object_field(members, "metadata"@) {
                                Ok(metadata) => Ok(
                                    DocView {
                                        version,
                                        root_nodes,
                                        nodes,
                                        metadata: pairs_to_map(metadata),
                                    },
                                ),
                                Err(e) => Err(e),
                            },
                            Err(e) => Err(e),
                        },
                        Err(e) => Err(e),
                    },
                    Err(e) => Err(e),
                },
                Err(e) => Err(e),
            },
            Err(e) => Err(e),
        },
        _ => Err(not_an_object("layout"@)),
    }
}

/// What holds of a result that was read as `expected` says.
pub open spec fn reads<T: View>(outcome: Result<T, String>, expected: Decoded<T::V>) -> bool {
    match expected {
        Ok(content) => outcome is Ok && outcome->Ok_0@ == content,
        Err(reason) => outcome is Err && outcome->Err_0@ == reason,
    }
}

/// The pair whose key is not repeated after it gives the key its value.
pub proof fn lemma_last_member<K, T>(pairs: Seq<(K, T)>, i: int)
    requires
        0 <= i < pairs.len(),
        forall|j: int| i < j < pairs.len() ==> pairs[j].0 != pairs[i].0,
    ensures
        pairs_to_map(pairs).contains_key(pairs[i].0),
        pairs_to_map(pairs)[pairs[i].0] == pairs[i].1,
    decreases pairs.len(),
{
    if i < pairs.len() - 1 {
        lemma_last_member(pairs.drop_last(), i);
    }
}

/// A failure among the first `k` items of a list of texts is the failure
/// of the list.
pub proof fn lemma_texts_failure(items: Seq<JsonView>, name: Seq<char>, k: int)
    requires
        0 <= k <= items.len(),
        decode_texts(items.take(k), name) is Err,
    ensures
        decode_texts(items, name) == decode_texts(items.take(k), name),
    decreases items.len(),
{
    if k == items.len() {
        assert(items.take(k) =~= items);
    } else {
        assert(items.drop_last().take(k) =~= items.take(k));
        lemma_texts_failure(items.drop_last(), name, k);
    }
}

/// A failure among the first `k` items of a list of ids is the failure of
/// the list.
pub proof fn lemma_ids_failure(items: Seq<JsonView>, name: Seq<char>, k: int)
    requires
        0 <= k <= items.len(),
        decode_ids(items.take(k), name) is Err,
    ensures
        decode_ids(items, name) == decode_ids(items.take(k), name),
    decreases items.len(),
{
    if k == items.len() {
        assert(items.take(k) =~= items);
    } else {
        assert(items.drop_last().take(k) =~= items.take(k));
        lemma_ids_failure(items.drop_last(), name, k);
    }
}

/// A failure among the first `k` members of a style map is the failure of
/// the map.
pub proof fn lemma_styles_failure(members: Members, name: Seq<char>, k: int)
    requires
        0 <= k <= members.len(),
        decode_styles(members.take(k), name) is Err,
    ensures
        decode_styles(members, name) == decode_styles(members.take(k), name),
    decreases members.len(),
{
    if k == members.len() {
        assert(members.take(k) =~= members);
    } else {
        assert(members.drop_last().take(k) =~= members.take(k));
        lemma_styles_failure(members.drop_last(), name, k);
    }
}

/// A failure among the first `k` members of a node map is the failure of
/// the map.
pub proof fn lemma_nodes_failure(members: Members, k: int)
    requires
        0 <= k <= members.len(),
        decode_nodes(members.take(k)) is Err,
    ensures
        decode_nodes(members) == decode_nodes(members.take(k)),
    decreases members.len(),
{
    if k == members.len() {
        assert(members.take(k) =~= members);
    } else {
        assert(members.drop_last().take(k) =~= members.take(k));
        lemma_nodes_failure(members.drop_last(), k);
    }
}

/// The words for a member that is not there.
fn missing_field_message(name: &str) -> (r: String)
    ensures
        r@ == missing_field(name@),
{
    "missing field `".to_owned().concat(name).concat("`")
}

/// The words for a member of the wrong kind.
fn wrong_type_message(name: &str) -> (r: String)
    ensures
        r@ == wrong_type(name@),
{
    "invalid type for field `".to_owned().concat(name).concat("`")
}

/// The words for a text that is not the text of an id.
fn bad_id_message(text: &str) -> (r: String)
    ensures
        r@ == bad_id(text@),
{
    "invalid widget id `".to_owned().concat(text).concat("`")
}

/// The words for a value that should have been an object.
fn not_an_object_message(what: &str) -> (r: String)
    ensures
        r@ == not_an_object(what@),
{
    "expected a JSON object for ".to_owned().concat(what)
}

/// The value of the member of this name, the last one where there are
/// several.
pub fn find_member<'a>(members: &'a Vec<(String, JsonValue)>, name: &str) -> (r: Option<
    &'a JsonValue,
>)
    ensures
        match r {
            Some(value) => member(members_view(members@), name@) == Some(value@),
            None => member(members_view(members@), name@) is None,
        },
{
    let ghost pairs = members_view(members@);
    let wanted = name.to_owned();
    let mut i: usize = members.len();
    while i > 0
        invariant
            i <= members.len(),
            wanted@ == name@,
            pairs == members_view(members@),
            forall|j: int| i <= j < members.len() ==> pairs[j].0 != name@,
        decreases i,
    {
        i -= 1;
        if members[i].0 == wanted {
            proof {
                lemma_last_member(pairs, i as int);
            }
            return Some(&members[i].1);
        }
    }
    proof {
        lemma_pairs_dom(pairs, name@);
    }
    None
}

/// The text of a member that must be a string.
fn read_text_field<'a>(members: &'a Vec<(String, JsonValue)>, name: &str) -> (r: Result<
    &'a String,
    String,
>)
    ensures
        match text_field(members_view(members@), name@) {
            Ok(text) => r is Ok && r->Ok_0@ == text,
            Err(reason) => r is Err && r->Err_0@ == reason,
        },
{
    match find_member(members, name) {
        Some(JsonValue::String(text)) => Ok(text),
        Some(_) => Err(wrong_type_message(name)),
        None => Err(missing_field_message(name)),
    }
}

/// The items of a member that must be an array.
fn read_array_field<'a>(members: &'a Vec<(String, JsonValue)>, name: &str) -> (r: Result<
    &'a Vec<JsonValue>,
    String,
>)
    ensures
        match array_field(members_view(members@), name@) {
            Ok(items) => r is Ok && crate::json::items_view(r->Ok_0@) == items,
            Err(reason) => r is Err && r->Err_0@ == reason,
        },
{
    match find_member(members, name) {
        Some(JsonValue::Array(items)) => {
            proof {
                lemma_array_view(*items);
            }
            Ok(items)
        },
        Some(_) => Err(wrong_type_message(name)),
        None => Err(missing_field_message(name)),
    }
}

/// The members of a member that must be an object.
fn read_object_field<'a>(members: &'a Vec<(String, JsonValue)>, name: &str) -> (r: Result<
    &'a Vec<(String, JsonValue)>,
    String,
>)
    ensures
        match object_field(members_view(members@), name@) {
            Ok(inner) => r is Ok && members_view(r->Ok_0@) == inner,
            Err(reason) => r is Err && r->Err_0@ == reason,
        },
{
    match find_member(members, name) {
        Some(JsonValue::Object(inner)) => {
            proof {
                lemma_object_view(*inner);
            }
            Ok(inner)
        },
        Some(_) => Err(wrong_type_message(name)),
        None => Err(missing_field_message(name)),
    }
}

/// Reads a list of texts from an array of strings.
fn read_texts(items: &Vec<JsonValue>, name: &str) -> (r: Result<Vec<String>, String>)
    ensures
        match decode_texts(crate::json::items_view(items@), name@) {
            Ok(list) => r is Ok && texts(r->Ok_0@) == list,
            Err(reason) => r is Err && r->Err_0@ == reason,
        },
{
    let ghost all = crate::json::items_view(items@);
    let mut list: Vec<String> = Vec::new();
    let mut i: usize = 0;
    assert(texts(list@) =~= Seq::empty());
    while i < items.len()
        invariant
            i <= items.len(),
            all == crate::json::items_view(items@),
            decode_texts(all.take(i as int), name@) == Ok::<Seq<Seq<char>>, Seq<char>>(
                texts(list@),
            ),
        decreases items.len() - i,
    {
        proof {
            assert(all.take(i + 1).drop_last() =~= all.take(i as int));
            assert(all.take(i + 1).last() == items@[i as int]@);
        }
        match &items[i] {
            JsonValue::String(text) => {
                let ghost before = texts(list@);
                list.push(text.clone());
                assert(texts(list@) =~= before.push(text@));
            },
            _ => {
                proof {
                    lemma_texts_failure(all, name@, i + 1);
                }
                return Err(wrong_type_message(name));
            },
        }
        i += 1;
    }
    proof {
        assert(all.take(i as int) =~= all);
    }
    Ok(list)
}

/// Reads an id from a string.
fn read_id(value: &JsonValue, name: &str) -> (r: Result<WidgetId, String>)
    ensures
        match decode_id(value@, name@) {
            Ok(id) => r == Ok::<WidgetId, String>(id),
            Err(reason) => r is Err && r->Err_0@ == reason,
        },
{
    match value {
        JsonValue::String(text) => match id_from_str(text.as_str()) {
            Some(id) => Ok(id),
            None => Err(bad_id_message(text.as_str())),
        },
        _ => Err(wrong_type_message(name)),
    }
}

/// Reads a list of ids from an array of strings.
fn read_ids(items: &Vec<JsonValue>, name: &str) -> (r: Result<Vec<WidgetId>, String>)
    ensures
        match decode_ids(crate::json::items_view(items@), name@) {
            Ok(list) => r is Ok && r->Ok_0@ == list,
            Err(reason) => r is Err && r->Err_0@ == reason,
        },
{
    let ghost all = crate::json::items_view(items@);
    let mut list: Vec<WidgetId> = Vec::new();
    let mut i: usize = 0;
    while i < items.len()
        invariant
            i <= items.len(),
            all == crate::json::items_view(items@),
            decode_ids(all.take(i as int), name@) == Ok::<Seq<u128>, Seq<char>>(list@),
        decreases items.len() - i,
    {
        proof {
            assert(all.take(i + 1).drop_last() =~= all.take(i as int));
            assert(all.take(i + 1).last() == items@[i as int]@);
        }
        match read_id(&items[i], name) {
            Ok(id) => {
                list.push(id);
            },
            Err(reason) => {
                proof {
                    lemma_ids_failure(all, name@, i + 1);
                }
                return Err(reason);
            },
        }
        i += 1;
    }
    proof {
        assert(all.take(i as int) =~= all);
    }
    Ok(list)
}

/// Reads a map from names to texts from the members of an object.
fn read_styles(members: &Vec<(String, JsonValue)>, name: &str) -> (r: Result<
    StrMap<String>,
    String,
>)
    ensures
        reads(r, decode_styles(members_view(members@), name@)),
{
    let ghost all = members_view(members@);
    let mut map: StrMap<String> = StrMap::new();
    let mut i: usize = 0;
    while i < members.len()
        invariant
            i <= members.len(),
            all == members_view(members@),
            decode_styles(all.take(i as int), name@) == Ok::<
                Map<Seq<char>, Seq<char>>,
                Seq<char>,
            >(map@),
        decreases members.len() - i,
    {
        proof {
            assert(all.take(i + 1).drop_last() =~= all.take(i as int));
            assert(all.take(i + 1).last() == (members@[i as int].0@, members@[i as int].1@));
        }
        match &members[i].1 {
            JsonValue::String(text) => {
                map.insert(members[i].0.clone(), text.clone());
            },
            _ => {
                proof {
                    lemma_styles_failure(all, name@, i + 1);
                }
                return Err(wrong_type_message(name));
            },
        }
        i += 1;
    }
    proof {
        assert(all.take(i as int) =~= all);
    }
    Ok(map)
}

/// Reads a map from names to JSON values from the members of an object.
fn read_values(members: &Vec<(String, JsonValue)>) -> (r: StrMap<JsonValue>)
    ensures
        r@ == pairs_to_map(members_view(members@)),
{
    let ghost all = members_view(members@);
    let mut map: StrMap<JsonValue> = StrMap::new();
    let mut i: usize = 0;
    while i < members.len()
        invariant
            i <= members.len(),
            all == members_view(members@),
            map@ == pairs_to_map(all.take(i as int)),
        decreases members.len() - i,
    {
        proof {
            assert(all.take(i + 1).drop_last() =~= all.take(i as int));
            assert(all.take(i + 1).last() == (members@[i as int].0@, members@[i as int].1@));
        }
        map.insert(members[i].0.clone(), members[i].1.clone());
        i += 1;
    }
    proof {
        assert(all.take(i as int) =~= all);
    }
    map
}

impl WidgetConfig {
    /// Reads a configuration from its JSON object.  The error says which
    /// member is missing or of the wrong kind.
    pub fn from_json_value(value: &JsonValue) -> (r: Result<WidgetConfig, String>)
        ensures
            reads(r, decode_config(value@)),
    {
        let members = match value {
            JsonValue::Object(members) => {
                proof {
                    lemma_object_view(*members);
                }
                members
            },
            _ => {
                return Err(not_an_object_message("config"));
            },
        };
        let widget_type = match read_text_field(members, "widget_type") {
            Ok(text) => text.clone(),
            Err(reason) => {
                return Err(reason);
            },
        };
        let properties = match read_object_field(members, "properties") {
            Ok(inner) => read_values(inner),
            Err(reason) => {
                return Err(reason);
            },
        };
        let classes = match read_array_field(members, "css_classes") {
            Ok(items) => items,
            Err(reason) => {
                return Err(reason);
            },
        };
        let css_classes = match read_texts(classes, "css_classes") {
            Ok(list) => list,
            Err(reason) => {
                return Err(reason);
            },
        };
        let styles = match read_object_field(members, "inline_styles") {
            Ok(inner) => inner,
            Err(reason) => {
                return Err(reason);
            },
        };
        let inline_styles = match read_styles(styles, "inline_styles") {
            Ok(map) => map,
            Err(reason) => {
                return Err(reason);
            },
        };
        Ok(WidgetConfig { widget_type, properties, css_classes, inline_styles })
    }
}

impl LayoutNode {
    /// Reads a node from its JSON object.  The error says which member is
    /// missing or of the wrong kind.
    pub fn from_json_value(value: &JsonValue) -> (r: Result<LayoutNode, String>)
        ensures
            reads(r, decode_node(value@)),
    {
        let members = match value {
            JsonValue::Object(members) => {
                proof {
                    lemma_object_view(*members);
                }
                members
            },
            _ => {
                return Err(not_an_object_message("node"));
            },
        };
        let config = match find_member(members, "config") {
            Some(config_value) => match WidgetConfig::from_json_value(config_value) {
                Ok(config) => config,
                Err(reason) => {
                    return Err(reason);
                },
            },
            None => {
                return Err(missing_field_message("config"));
            },
        };
        let items = match read_array_field(members, "children") {
            Ok(items) => items,
            Err(reason) => {
                return Err(reason);
            },
        };
        let children = match read_ids(items, "children") {
            Ok(list) => list,
            Err(reason) => {
                return Err(reason);
            },
        };
        let parent = match find_member(members, "parent") {
            None => None,
            Some(JsonValue::Null) => None,
            Some(parent_value) => match read_id(parent_value, "parent") {
                Ok(id) => Some(id),
                Err(reason) => {
                    return Err(reason);
                },
            },
        };
        let metadata = match read_object_field(members, "metadata") {
            Ok(inner) => read_values(inner),
            Err(reason) => {
                return Err(reason);
            },
        };
        Ok(LayoutNode { config, children, parent, metadata })
    }
}

/// The contents of a map of nodes.
pub open spec fn nodes_view(nodes: Map<u128, LayoutNode>) -> Map<u128, NodeView> {
    nodes.map_values(|node: LayoutNode| node@)
}

/// Reads the node map from the members of an object.
fn read_nodes(members: &Vec<(String, JsonValue)>) -> (r: Result<HashMap<WidgetId, LayoutNode>, String>)
    ensures
        match decode_nodes(members_view(members@)) {
            Ok(nodes) => r is Ok && nodes_view(r->Ok_0@) == nodes,
            Err(reason) => r is Err && r->Err_0@ == reason,
        },
{
    let ghost all = members_view(members@);
    let mut nodes: HashMap<WidgetId, LayoutNode> = HashMap::new();
    let mut i: usize = 0;
    assert(nodes_view(nodes@) =~= Map::empty());
    while i < members.len()
        invariant
            i <= members.len(),
            all == members_view(members@),
            decode_nodes(all.take(i as int)) == Ok::<Map<u128, NodeView>, Seq<char>>(
                nodes_view(nodes@),
            ),
        decreases members.len() - i,
    {
        proof {
            assert(all.take(i + 1).drop_last() =~= all.take(i as int));
            assert(all.take(i + 1).last() == (members@[i as int].0@, members@[i as int].1@));
        }
        let id = match id_from_str(members[i].0.as_str()) {
            Some(id) => id,
            None => {
                proof {
                    lemma_nodes_failure(all, i + 1);
                }
                return Err(bad_id_message(members[i].0.as_str()));
            },
        };
        match LayoutNode::from_json_value(&members[i].1) {
            Ok(node) => {
                let ghost before = nodes_view(nodes@);
                let ghost content = node@;
                nodes.insert(id, node);
                assert(nodes_view(nodes@) =~= before.insert(id, content));
            },
            Err(reason) => {
                proof {
                    lemma_nodes_failure(all, i + 1);
                }
                return Err(reason);
            },
        }
        i += 1;
    }
    proof {
        assert(all.take(i as int) =~= all);
    }
    Ok(nodes)
}

impl SerializedLayout {
    /// Reads a document from its JSON object, without checking its
    /// structure.  The error says which member is missing or of the wrong
    /// kind, or which text is not the text of an id.
    pub fn from_json_value(value: &JsonValue) -> (r: Result<SerializedLayout, String>)
        ensures
            reads(r, decode_document(value@)),
    {
        let members = match value {
            JsonValue::Object(members) => {
                proof {
                    lemma_object_view(*members);
                }
                members
            },
            _ => {
                return Err(not_an_object_message("layout"));
            },
        };
        let version = match read_text_field(members, "version") {
            Ok(text) => text.clone(),
            Err(reason) => {
                return Err(reason);
            },
        };
        let items = match read_array_field(members, "root_nodes") {
            Ok(items) => items,
            Err(reason) => {
                return Err(reason);
            },
        };
        let root_nodes = match read_ids(items, "root_nodes") {
            Ok(list) => list,
            Err(reason) => {
                return Err(reason);
            },
        };
        let node_members = match read_object_field(members, "nodes") {
            Ok(inner) => inner,
            Err(reason) => {
                return Err(reason);
            },
        };
        let nodes = match read_nodes(node_members) {
            Ok(nodes) => nodes,
            Err(reason) => {
                return Err(reason);
            },
        };
        let metadata = match read_object_field(members, "metadata") {
            Ok(inner) => read_values(inner),
            Err(reason) => {
                return Err(reason);
            },
        };
        Ok(SerializedLayout { version, root_nodes, nodes, metadata })
    }
}

/// The JSON strings of a list of texts.
pub open spec fn strings_of(list: Seq<Seq<char>>) -> Seq<JsonView> {
    list.map_values(|text: Seq<char>| JsonView::String(text))
}

/// The JSON members of a list of named texts.
pub open spec fn string_members_of(pairs: Seq<(Seq<char>, Seq<char>)>) -> Members {
    pairs.map_values(|pair: (Seq<char>, Seq<char>)| (pair.0, JsonView::String(pair.1)))
}

/// The items are strings that are read as the listed ids.
pub open spec fn id_strings(items: Seq<JsonView>, ids: Seq<u128>) -> bool {
    &&& items.len() == ids.len()
    &&& forall|i: int|
        0 <= i < items.len() ==> (#[trigger] items[i]) is String && id_parse(items[i]->String_0)
            == Some(ids[i])
}

/// An array of strings is read as the list of their texts.
pub proof fn lemma_texts_round(list: Seq<Seq<char>>, name: Seq<char>)
    ensures
        decode_texts(strings_of(list), name) == Ok::<Seq<Seq<char>>, Seq<char>>(list),
    decreases list.len(),
{
    if list.len() > 0 {
        lemma_texts_round(list.drop_last(), name);
        assert(strings_of(list).drop_last() =~= strings_of(list.drop_last()));
        assert(list.drop_last().push(list.last()) =~= list);
    } else {
        assert(list =~= Seq::empty());
    }
}

/// An array of id texts is read as the list of the ids.
pub proof fn lemma_ids_round(items: Seq<JsonView>, ids: Seq<u128>, name: Seq<char>)
    requires
        id_strings(items, ids),
    ensures
        decode_ids(items, name) == Ok::<Seq<u128>, Seq<char>>(ids),
    decreases items.len(),
{
    if items.len() > 0 {
        assert(id_strings(items.drop_last(), ids.drop_last())) by {
            assert forall|i: int| 0 <= i < items.drop_last().len() implies (
            #[trigger] items.drop_last()[i]) is String && id_parse(
                items.drop_last()[i]->String_0,
            ) == Some(ids.drop_last()[i]) by {
                assert(items[i] is String);
            }
        }
        lemma_ids_round(items.drop_last(), ids.drop_last(), name);
        assert(items[items.len() - 1] is String);
        assert(ids.drop_last().push(ids.last()) =~= ids);
    } else {
        assert(ids =~= Seq::empty());
    }
}

/// An object of strings is read as the map of their texts.
pub proof fn lemma_styles_round(pairs: Seq<(Seq<char>, Seq<char>)>, name: Seq<char>)
    ensures
        decode_styles(string_members_of(pairs), name) == Ok::<
            Map<Seq<char>, Seq<char>>,
            Seq<char>,
        >(pairs_to_map(pairs)),
    decreases pairs.len(),
{
    if pairs.len() > 0 {
        lemma_styles_round(pairs.drop_last(), name);
        assert(string_members_of(pairs).drop_last() =~= string_members_of(pairs.drop_last()));
    }
}

/// In an object of four members with different names, each name has the
/// value of its member.
pub proof fn lemma_four_members(members: Members)
    requires
        members.len() == 4,
        members[0].0 != members[1].0,
        members[0].0 != members[2].0,
        members[0].0 != members[3].0,
        members[1].0 != members[2].0,
        members[1].0 != members[3].0,
        members[2].0 != members[3].0,
    ensures
        member(members, members[0].0) == Some(members[0].1),
        member(members, members[1].0) == Some(members[1].1),
        member(members, members[2].0) == Some(members[2].1),
        member(members, members[3].0) == Some(members[3].1),
{
    lemma_last_member(members, 0);
    lemma_last_member(members, 1);
    lemma_last_member(members, 2);
    lemma_last_member(members, 3);
}

/// The member names of a configuration differ from one another.
pub proof fn lemma_config_names()
    ensures
        "widget_type"@ != "properties"@,
        "widget_type"@ != "css_classes"@,
        "widget_type"@ != "inline_styles"@,
        "properties"@ != "css_classes"@,
        "properties"@ != "inline_styles"@,
        "css_classes"@ != "inline_styles"@,
{
    reveal_strlit("widget_type");
    reveal_strlit("properties");
    reveal_strlit("css_classes");
    reveal_strlit("inline_styles");
    assert("widget_type"@.len() == 11 && "properties"@.len() == 10);
    assert("css_classes"@.len() == 11 && "inline_styles"@.len() == 13);
    assert("widget_type"@[0] != "css_classes"@[0]);
}

/// The member names of a node differ from one another.
pub proof fn lemma_node_names()
    ensures
        "config"@ != "children"@,
        "config"@ != "parent"@,
        "config"@ != "metadata"@,
        "children"@ != "parent"@,
        "children"@ != "metadata"@,
        "parent"@ != "metadata"@,
{
    reveal_strlit("config");
    reveal_strlit("children");
    reveal_strlit("parent");
    reveal_strlit("metadata");
    assert("config"@.len() == 6 && "children"@.len() == 8);
    assert("parent"@.len() == 6 && "metadata"@.len() == 8);
    assert("config"@[0] != "parent"@[0]);
    assert("children"@[0] != "metadata"@[0]);
}

/// The member names of a document differ from one another.
pub proof fn lemma_document_names()
    ensures
        "version"@ != "root_nodes"@,
        "version"@ != "nodes"@,
        "version"@ != "metadata"@,
        "root_nodes"@ != "nodes"@,
        "root_nodes"@ != "metadata"@,
        "nodes"@ != "metadata"@,
{
    reveal_strlit("version");
    reveal_strlit("root_nodes");
    reveal_strlit("nodes");
    reveal_strlit("metadata");
    assert("version"@.len() == 7 && "root_nodes"@.len() == 10);
    assert("nodes"@.len() == 5 && "metadata"@.len() == 8);
}

/// The JSON string of an id: its text.
pub open spec fn id_value(id: u128) -> JsonView {
    JsonView::String(id_text(id))
}

/// The JSON strings of a list of ids.
pub open spec fn id_values(ids: Seq<u128>) -> Seq<JsonView> {
    ids.map_values(|id: u128| id_value(id))
}

/// The JSON value of a parent link: `null` for none, else the id's text.
pub open spec fn parent_value(parent: Option<u128>) -> JsonView {
    match parent {
        Some(id) => id_value(id),
        None => JsonView::Null,
    }
}

impl WidgetConfig {
    /// The JSON object that the configuration is written as: the members
    /// `widget_type`, `properties`, `css_classes` and `inline_styles`, the
    /// two maps in the order of their entries.
    pub open spec fn written(&self) -> JsonView {
        JsonView::Object(
            seq![
                ("widget_type"@, JsonView::String(self.widget_type@)),
                ("properties"@, JsonView::Object(self.properties.pairs())),
                ("css_classes"@, JsonView::Array(strings_of(texts(self.css_classes@)))),
                (
                    "inline_styles"@,
                    JsonView::Object(string_members_of(self.inline_styles.pairs())),
                ),
            ],
        )
    }
}

impl LayoutNode {
    /// The JSON object that the node is written as: the members `config`,
    /// `children`, `parent` and `metadata`.  A node without parent has
    /// `null` for its parent.
    pub open spec fn written(&self) -> JsonView {
        JsonView::Object(
            seq![
                ("config"@, self.config.written()),
                ("children"@, JsonView::Array(id_values(self.children@))),
                ("parent"@, parent_value(self.parent)),
                ("metadata"@, JsonView::Object(self.metadata.pairs())),
            ],
        )
    }
}

impl SerializedLayout {
    /// The list names every node once.
    pub open spec fn lists_nodes(&self, order: Seq<u128>) -> bool {
        order.no_duplicates() && order.to_set() == self.nodes@.dom()
    }

    /// The members of `nodes` for the nodes in the given order: each node
    /// under the text of its id.
    pub open spec fn node_members(&self, order: Seq<u128>) -> Members {
        order.map_values(|id: u128| (id_text(id), self.nodes@[id].written()))
    }

    /// The JSON object that the document is written as, with the nodes in
    /// the given order: the members `version`, `root_nodes`, `nodes` and
    /// `metadata`.
    pub open spec fn written_in(&self, order: Seq<u128>) -> JsonView {
        JsonView::Object(
            seq![
                ("version"@, JsonView::String(self.version@)),
                ("root_nodes"@, JsonView::Array(id_values(self.root_nodes@))),
                ("nodes"@, JsonView::Object(self.node_members(order))),
                ("metadata"@, JsonView::Object(self.metadata.pairs())),
            ],
        )
    }

    /// The value is what the document is written as, for some order of its
    /// nodes.
    pub open spec fn writes(&self, tree: JsonView) -> bool {
        exists|order: Seq<u128>| self.lists_nodes(order) && #[trigger] self.written_in(order) == tree
    }

    /// The text is the compact print of what the document is written as.
    pub open spec fn prints(&self, text: Seq<char>) -> bool {
        exists|tree: JsonView| #[trigger] json_text(tree) == text && self.writes(tree)
    }

    /// The text is the indented print of what the document is written as.
    pub open spec fn prints_pretty(&self, text: Seq<char>) -> bool {
        exists|tree: JsonView| #[trigger] json_text_pretty(tree) == text && self.writes(tree)
    }
}

/// Writes a list of texts as JSON strings.
fn write_texts(list: &Vec<String>) -> (r: Vec<JsonValue>)
    ensures
        crate::json::items_view(r@) == strings_of(texts(list@)),
{
    let mut items: Vec<JsonValue> = Vec::new();
    let mut i: usize = 0;
    while i < list.len()
        invariant
            i <= list.len(),
            items.len() == i,
            forall|j: int| 0 <= j < i ==> items@[j]@ == JsonView::String(list@[j]@),
        decreases list.len() - i,
    {
        items.push(JsonValue::String(list[i].clone()));
        i += 1;
    }
    assert(crate::json::items_view(items@) =~= strings_of(texts(list@)));
    items
}

/// Writes a list of ids as JSON strings of their texts.
fn write_ids(list: &Vec<WidgetId>) -> (r: Vec<JsonValue>)
    ensures
        crate::json::items_view(r@) == id_values(list@),
        id_strings(crate::json::items_view(r@), list@),
{
    let mut items: Vec<JsonValue> = Vec::new();
    let mut i: usize = 0;
    while i < list.len()
        invariant
            i <= list.len(),
            items.len() == i,
            forall|j: int|
                0 <= j < i ==> (#[trigger] items@[j]@) == id_value(list@[j]) && id_parse(
                    id_text(list@[j]),
                ) == Some(list@[j]),
        decreases list.len() - i,
    {
        items.push(JsonValue::String(crate::widget::id_to_string(list[i])));
        i += 1;
    }
    assert(crate::json::items_view(items@) =~= id_values(list@));
    assert forall|j: int| 0 <= j < items.len() implies (#[trigger] crate::json::items_view(
        items@,
    )[j]) is String && id_parse(crate::json::items_view(items@)[j]->String_0) == Some(
        list@[j],
    ) by {
        assert(items@[j]@ == id_value(list@[j]));
    }
    items
}

/// Writes a map from names to texts as the members of an object.
fn write_styles(map: &StrMap<String>) -> (r: Vec<(String, JsonValue)>)
    ensures
        members_view(r@) == string_members_of(map.pairs()),
{
    let mut members: Vec<(String, JsonValue)> = Vec::new();
    let count = map.len();
    let mut i: usize = 0;
    while i < count
        invariant
            i <= count,
            count == map.pairs().len(),
            members.len() == i,
            forall|j: int|
                0 <= j < i ==> members@[j].0@ == map.pairs()[j].0 && members@[j].1@
                    == JsonView::String(map.pairs()[j].1),
        decreases count - i,
    {
        members.push((map.key_at(i).clone(), JsonValue::String(map.value_at(i).clone())));
        i += 1;
    }
    assert(members_view(members@) =~= string_members_of(map.pairs()));
    members
}

/// Writes a map from names to JSON values as the members of an object.
fn write_values(map: &StrMap<JsonValue>) -> (r: Vec<(String, JsonValue)>)
    ensures
        members_view(r@) == map.pairs(),
{
    let mut members: Vec<(String, JsonValue)> = Vec::new();
    let count = map.len();
    let mut i: usize = 0;
    while i < count
        invariant
            i <= count,
            count == map.pairs().len(),
            members.len() == i,
            forall|j: int|
                0 <= j < i ==> members@[j].0@ == map.pairs()[j].0 && members@[j].1@
                    == map.pairs()[j].1,
        decreases count - i,
    {
        members.push((map.key_at(i).clone(), map.value_at(i).clone()));
        i += 1;
    }
    assert(members_view(members@) =~= map.pairs());
    members
}

/// An object of four named members.
fn four_members(
    first: (&str, JsonValue),
    second: (&str, JsonValue),
    third: (&str, JsonValue),
    fourth: (&str, JsonValue),
) -> (r: Vec<(String, JsonValue)>)
    ensures
        members_view(r@) == seq![
            (first.0@, first.1@),
            (second.0@, second.1@),
            (third.0@, third.1@),
            (fourth.0@, fourth.1@),
        ],
{
    let mut members: Vec<(String, JsonValue)> = Vec::new();
    members.push((first.0.to_owned(), first.1));
    members.push((second.0.to_owned(), second.1));
    members.push((third.0.to_owned(), third.1));
    members.push((fourth.0.to_owned(), fourth.1));
    assert(members_view(members@) =~= seq![
        (first.0@, first.1@),
        (second.0@, second.1@),
        (third.0@, third.1@),
        (fourth.0@, fourth.1@),
    ]);
    members
}

impl WidgetConfig {
    /// Writes the configuration as a JSON object, which reads back as the
    /// same configuration.
    pub fn to_json_value(&self) -> (r: JsonValue)
        ensures
            r@ == self.written(),
            decode_config(r@) == Ok::<ConfigView, Seq<char>>(self@),
    {
        let classes = write_texts(&self.css_classes);
        let styles = write_styles(&self.inline_styles);
        let properties = write_values(&self.properties);
        proof {
            lemma_array_view(classes);
            lemma_object_view(styles);
            lemma_object_view(properties);
            lemma_texts_round(texts(self.css_classes@), "css_classes"@);
            lemma_styles_round(self.inline_styles.pairs(), "inline_styles"@);
        }
        let members = four_members(
            ("widget_type", JsonValue::String(self.widget_type.clone())),
            ("properties", JsonValue::Object(properties)),
            ("css_classes", JsonValue::Array(classes)),
            ("inline_styles", JsonValue::Object(styles)),
        );
        proof {
            lemma_config_names();
            lemma_four_members(members_view(members@));
            lemma_object_view(members);
        }
        JsonValue::Object(members)
    }
}

impl LayoutNode {
    /// Writes the node as a JSON object, which reads back as the same node.
    pub fn to_json_value(&self) -> (r: JsonValue)
        ensures
            r@ == self.written(),
            decode_node(r@) == Ok::<NodeView, Seq<char>>(self@),
    {
        let children = write_ids(&self.children);
        let metadata = write_values(&self.metadata);
        let parent = match self.parent {
            Some(id) => JsonValue::String(crate::widget::id_to_string(id)),
            None => JsonValue::Null,
        };
        proof {
            lemma_array_view(children);
            lemma_object_view(metadata);
            lemma_ids_round(crate::json::items_view(children@), self.children@, "children"@);
        }
        let members = four_members(
            ("config", self.config.to_json_value()),
            ("children", JsonValue::Array(children)),
            ("parent", parent),
            ("metadata", JsonValue::Object(metadata)),
        );
        proof {
            lemma_node_names();
            lemma_four_members(members_view(members@));
            lemma_object_view(members);
        }
        JsonValue::Object(members)
    }
}

impl SerializedLayout {
    /// Writes the node map as the members of an object, one member for each
    /// node under the text of its id, in the order of the list.
    fn write_nodes(&self, ids: &Vec<WidgetId>) -> (r: Vec<(String, JsonValue)>)
        requires
            ids@.to_set() == self@.nodes.dom(),
        ensures
            members_view(r@) == self.node_members(ids@),
            decode_nodes(members_view(r@)) == Ok::<Map<u128, NodeView>, Seq<char>>(self@.nodes),
    {
        let mut members: Vec<(String, JsonValue)> = Vec::new();
        let mut i: usize = 0;
        assert(self@.nodes.restrict(ids@.take(0).to_set()) =~= Map::empty());
        assert(members_view(members@) =~= Seq::empty());
        while i < ids.len()
            invariant
                i <= ids.len(),
                ids@.to_set() == self@.nodes.dom(),
                members_view(members@) == self.node_members(ids@.take(i as int)),
                decode_nodes(members_view(members@)) == Ok::<Map<u128, NodeView>, Seq<char>>(
                    self@.nodes.restrict(ids@.take(i as int).to_set()),
                ),
            decreases ids.len() - i,
        {
            let id = ids[i];
            assert(ids@.to_set().contains(id));
            let ghost before = members_view(members@);
            match self.get_node(&id) {
                Some(node) => {
                    let key = crate::widget::id_to_string(id);
                    let value = node.to_json_value();
                    let ghost added = (key@, value@);
                    members.push((key, value));
                    proof {
                        assert(members_view(members@) =~= before.push(added));
                        assert(members_view(members@).drop_last() =~= before);
                        assert(before.push(added) =~= self.node_members(ids@.take(i + 1)));
                        crate::serialization::lemma_take_set(ids@, i as int);
                        assert(self@.nodes.restrict(ids@.take(i as int).to_set()).insert(
                            id,
                            node@,
                        ) =~= self@.nodes.restrict(ids@.take(i + 1).to_set()));
                    }
                },
                None => {},
            }
            i += 1;
        }
        proof {
            assert(ids@.take(i as int) =~= ids@);
            assert(self@.nodes.restrict(ids@.to_set()) =~= self@.nodes);
        }
        members
    }

    /// Writes the document as a JSON object, which reads back as the same
    /// document.  The order of the members of `nodes` is not fixed.
    pub fn to_json_value(&self) -> (r: JsonValue)
        ensures
            self.writes(r@),
            decode_document(r@) == Ok::<DocView, Seq<char>>(self@),
    {
        let roots = write_ids(&self.root_nodes);
        let ids = self.node_ids();
        assert(self@.nodes.dom() =~= self.nodes@.dom());
        let nodes = self.write_nodes(&ids);
        let metadata = write_values(&self.metadata);
        proof {
            lemma_array_view(roots);
            lemma_object_view(nodes);
            lemma_object_view(metadata);
            lemma_ids_round(crate::json::items_view(roots@), self.root_nodes@, "root_nodes"@);
        }
        let members = four_members(
            ("version", JsonValue::String(self.version.clone())),
            ("root_nodes", JsonValue::Array(roots)),
            ("nodes", JsonValue::Object(nodes)),
            ("metadata", JsonValue::Object(metadata)),
        );
        proof {
            lemma_document_names();
            lemma_four_members(members_view(members@));
            lemma_object_view(members);
            assert(self.lists_nodes(ids@));
            assert(JsonValue::Object(members)@ == self.written_in(ids@));
        }
        JsonValue::Object(members)
    }
}

/// What a text is read as: the document that its JSON value describes, or
/// the reason why there is none.
pub open spec fn parse_document(text: Seq<char>) -> Decoded<DocView> {
    match json_parse(text) {
        Ok(tree) => decode_document(tree),
        Err(reason) => Err(reason),
    }
}

/// The text is the compact print of a JSON value that describes the
/// document.
pub open spec fn written(doc: DocView, text: Seq<char>) -> bool {
    exists|tree: JsonView| #[trigger] json_text(tree) == text && decode_document(tree) == Ok::<
        DocView,
        Seq<char>,
    >(doc)
}

/// The text is the indented print of a JSON value that describes the
/// document.
pub open spec fn written_pretty(doc: DocView, text: Seq<char>) -> bool {
    exists|tree: JsonView| #[trigger]
        json_text_pretty(tree) == text && decode_document(tree) == Ok::<DocView, Seq<char>>(doc)
}

/// What loading makes of a document that was read or not: the document
/// where it was read and is valid, else a deserialization error with the
/// reason, which for a document that is not valid is the text of the fault
/// that is reported of it.
pub open spec fn loaded(read: Decoded<DocView>) -> Result<DocView, ErrorView> {
    match read {
        Ok(doc) => if doc.valid() {
            Ok(doc)
        } else {
            Err(ErrorView::DeserializationError(doc.fault_text()))
        },
        Err(reason) => Err(ErrorView::DeserializationError(reason)),
    }
}

/// The outcome is what loading makes of what was read.
pub open spec fn loads(outcome: Result<Layout, Error>, read: Decoded<DocView>) -> bool {
    match loaded(read) {
        Ok(doc) => outcome is Ok && outcome->Ok_0@ == doc,
        Err(e) => outcome is Err && outcome->Err_0@ == e,
    }
}

/// What reading gives for a document that was read or not: the document,
/// or a deserialization error with the reason.
pub open spec fn loads_unchecked(outcome: Result<SerializedLayout, Error>, read: Decoded<DocView>)
    -> bool {
    match read {
        Ok(doc) => outcome is Ok && outcome->Ok_0@ == doc,
        Err(reason) => outcome is Err && outcome->Err_0@ == ErrorView::DeserializationError(
            reason,
        ),
    }
}

/// The outcome of printing as the outcome of serializing: the text, or a
/// serialization error with the message.
pub fn finish_print(printed: Result<String, String>) -> (r: Result<String, Error>)
    ensures
        match printed {
            Ok(text) => r == Ok::<String, Error>(text),
            Err(message) => r == Err::<String, Error>(Error::SerializationError(message)),
        },
{
    match printed {
        Ok(text) => Ok(text),
        Err(message) => Err(Error::SerializationError(message)),
    }
}

impl SerializedLayout {
    /// The document that a parsed text describes, where the text was parsed
    /// and describes one; else a deserialization error with the reason.
    /// The structure of the document is not checked.
    pub fn from_parsed(parsed: Result<JsonValue, String>) -> (r: Result<SerializedLayout, Error>)
        ensures
            loads_unchecked(
                r,
                match parsed {
                    Ok(tree) => decode_document(tree@),
                    Err(reason) => Err(reason@),
                },
            ),
    {
        match parsed {
            Ok(tree) => match SerializedLayout::from_json_value(&tree) {
                Ok(serialized) => Ok(serialized),
                Err(reason) => Err(Error::DeserializationError(reason)),
            },
            Err(reason) => Err(Error::DeserializationError(reason)),
        }
    }

    /// Reads a document from JSON text, without checking its structure.
    pub fn from_json(json: &str) -> (r: Result<SerializedLayout, Error>)
        ensures
            loads_unchecked(r, parse_document(json@)),
    {
        SerializedLayout::from_parsed(parse_text(json))
    }

    /// Writes the document as compact JSON text.
    pub fn to_json(&self) -> (r: Result<String, Error>)
        ensures
            r is Ok,
            self.prints(r->Ok_0@),
            written(self@, r->Ok_0@),
    {
        let tree = self.to_json_value();
        let printed = print_text(&tree);
        finish_print(printed)
    }

    /// Writes the document as indented JSON text.
    pub fn to_json_pretty(&self) -> (r: Result<String, Error>)
        ensures
            r is Ok,
            self.prints_pretty(r->Ok_0@),
            written_pretty(self@, r->Ok_0@),
    {
        let tree = self.to_json_value();
        let printed = print_text_pretty(&tree);
        finish_print(printed)
    }
}

impl Layout {
    /// The layout that a parsed text describes, where the text was parsed
    /// and describes a valid document; else a deserialization error with
    /// the reason.
    pub fn from_parsed(parsed: Result<JsonValue, String>) -> (r: Result<Layout, Error>)
        ensures
            loads(
                r,
                match parsed {
                    Ok(tree) => decode_document(tree@),
                    Err(reason) => Err(reason@),
                },
            ),
    {
        let serialized = match SerializedLayout::from_parsed(parsed) {
            Ok(serialized) => serialized,
            Err(e) => {
                return Err(e);
            },
        };
        match serialized.find_fault() {
            Some(fault) => Err(Error::DeserializationError(fault.message())),
            None => Ok(Layout::wrap(serialized)),
        }
    }

    /// Reads a layout from JSON text.  A text that is not JSON, does not
    /// describe a document, or describes a document that is not valid is
    /// rejected with a deserialization error: the message of the parser,
    /// the reason why the value is no document, or the fault that is
    /// reported of the document.
    pub fn from_json(json: &str) -> (r: Result<Layout, Error>)
        ensures
            loads(r, parse_document(json@)),
            r is Ok ==> r->Ok_0@.valid(),
    {
        Layout::from_parsed(parse_text(json))
    }

    /// Writes the layout as a JSON object, which reads back as the same
    /// document.  The order of the members of `nodes` is not fixed.
    pub fn to_json_value(&self) -> (r: JsonValue)
        ensures
            self.plain().writes(r@),
            decode_document(r@) == Ok::<DocView, Seq<char>>(self@),
    {
        self.to_serialized().to_json_value()
    }

    /// Writes the layout as compact JSON text.
    pub fn to_json(&self) -> (r: Result<String, Error>)
        ensures
            r is Ok,
            self.plain().prints(r->Ok_0@),
            written(self@, r->Ok_0@),
    {
        self.to_serialized().to_json()
    }

    /// Writes the layout as indented JSON text.
    pub fn to_json_pretty(&self) -> (r: Result<String, Error>)
        ensures
            r is Ok,
            self.plain().prints_pretty(r->Ok_0@),
            written_pretty(self@, r->Ok_0@),
    {
        self.to_serialized().to_json_pretty()
    }
}

/// The root list or some children list names an id that has no node.
pub open spec fn dangling(doc: DocView) -> bool {
    ||| exists|i: int|
        0 <= i < doc.root_nodes.len() && !doc.nodes.contains_key(#[trigger] doc.root_nodes[i])
    ||| exists|id: u128, j: int|
        doc.nodes.contains_key(id) && 0 <= j < doc.nodes[id].children.len()
            && !doc.nodes.contains_key(#[trigger] doc.nodes[id].children[j])
}

/// A valid document that was written as a JSON value is loaded from a text
/// that parses to that value as the same document.
pub proof fn lemma_load_written(
    doc: DocView,
    tree: JsonView,
    text: Seq<char>,
    loaded: Result<Layout, Error>,
)
    requires
        doc.valid(),
        decode_document(tree) == Ok::<DocView, Seq<char>>(doc),
        json_parse(text) == Ok::<JsonView, Seq<char>>(tree),
        loads(loaded, parse_document(text)),
    ensures
        loaded is Ok,
        loaded->Ok_0@ == doc,
{
}

/// A text that describes a document with a dangling reference is not
/// loaded: loading fails with a deserialization error.
pub proof fn lemma_dangling_rejected(doc: DocView, text: Seq<char>, loaded: Result<Layout, Error>)
    requires
        parse_document(text) == Ok::<DocView, Seq<char>>(doc),
        dangling(doc),
        loads(loaded, parse_document(text)),
    ensures
        !doc.valid(),
        loaded is Err,
        loaded->Err_0@ is DeserializationError,
{
    if exists|i: int|
        0 <= i < doc.root_nodes.len() && !doc.nodes.contains_key(#[trigger] doc.root_nodes[i]) {
        let i = choose|i: int|
            0 <= i < doc.root_nodes.len() && !doc.nodes.contains_key(#[trigger] doc.root_nodes[i]);
        assert(doc.root_nodes.contains(doc.root_nodes[i]));
        crate::model::lemma_fault_invalid(doc, Fault::MissingRoot(doc.root_nodes[i]));
    } else {
        let (id, j) = choose|id: u128, j: int|
            doc.nodes.contains_key(id) && 0 <= j < doc.nodes[id].children.len()
                && !doc.nodes.contains_key(#[trigger] doc.nodes[id].children[j]);
        assert(doc.nodes[id].children.contains(doc.nodes[id].children[j]));
        crate::model::lemma_fault_invalid(doc, Fault::MissingChild(id, doc.nodes[id].children[j]));
    }
}

} // verus!
