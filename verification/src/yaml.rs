use vstd::prelude::*;

verus! {

/// A YAML value made of text, lists and mappings whose entries keep their order.
#[derive(Debug, PartialEq)]
pub enum Yaml {
    Text(String),
    List(Vec<Yaml>),
    Dict(Vec<(Yaml, Yaml)>),
}

/// The mathematical value of a [`Yaml`] value.
pub enum YamlView {
    Text(Seq<char>),
    List(Seq<YamlView>),
    Dict(Seq<(YamlView, YamlView)>),
}

/// The view of a YAML value.
pub open spec fn yaml_view(y: Yaml) -> YamlView
    decreases y,
{
    match y {
        Yaml::Text(s) => YamlView::Text(s@),
        Yaml::List(items) => YamlView::List(
            Seq::new(
                items@.len(),
                |i: int|
                    if 0 <= i < items@.len() {
                        yaml_view(items@[i])
                    } else {
                        YamlView::Text(Seq::empty())
                    },
            ),
        ),
        Yaml::Dict(entries) => YamlView::Dict(
            Seq::new(
                entries@.len(),
                |i: int|
                    if 0 <= i < entries@.len() {
                        (yaml_view(entries@[i].0), yaml_view(entries@[i].1))
                    } else {
                        (YamlView::Text(Seq::empty()), YamlView::Text(Seq::empty()))
                    },
            ),
        ),
    }
}

impl View for Yaml {
    type V = YamlView;

    open spec fn view(&self) -> YamlView {
        yaml_view(*self)
    }
}


/// The YAML values of a list of them.
pub open spec fn items_view(items: Seq<Yaml>) -> Seq<YamlView> {
    items.map_values(|y: Yaml| y@)
}

/// The YAML values of a list of entries.
pub open spec fn entries_view(entries: Seq<(Yaml, Yaml)>) -> Seq<(YamlView, YamlView)> {
    entries.map_values(|e: (Yaml, Yaml)| (e.0@, e.1@))
}

impl Yaml {
    /// A text value.
    pub fn text(s: String) -> (y: Yaml)
        ensures
            y@ == YamlView::Text(s@),
    {
        Yaml::Text(s)
    }

    /// A list of values, in order.
    pub fn list(items: Vec<Yaml>) -> (y: Yaml)
        ensures
            y@ == YamlView::List(items_view(items@)),
    {
        let y = Yaml::List(items);
        assert(y@ == YamlView::List(items_view(items@))) by {
            if let YamlView::List(s) = y@ {
                assert(s =~= items_view(items@));
            }
        }
        y
    }

    /// A mapping with its entries in order.
    pub fn dict(entries: Vec<(Yaml, Yaml)>) -> (y: Yaml)
        ensures
            y@ == YamlView::Dict(entries_view(entries@)),
    {
        let y = Yaml::Dict(entries);
        assert(y@ == YamlView::Dict(entries_view(entries@))) by {
            if let YamlView::Dict(s) = y@ {
                assert(s =~= entries_view(entries@));
            }
        }
        y
    }
}

#[verifier::external_type_specification]
#[verifier::external_body]
pub struct ExYamlValue(serde_yaml::Value);

/// The text `serde_yaml::to_string` writes for a YAML value.
pub uninterp spec fn yaml_text(v: YamlView) -> Seq<char>;

/// Converts a YAML value into serde_yaml's, one for one: text becomes `Value::String`, a
/// list `Value::Sequence`, a mapping `Value::Mapping` with its entries in the same order.
#[verifier::external_body]
fn to_serde_value(v: &Yaml) -> serde_yaml::Value {
    match v {
        Yaml::Text(s) => serde_yaml::Value::String(s.clone()),
        Yaml::List(items) => serde_yaml::Value::Sequence(items.iter().map(to_serde_value).collect()),
        Yaml::Dict(entries) => serde_yaml::Value::Mapping(
            entries.iter().map(|(k, x)| (to_serde_value(k), to_serde_value(x))).collect(),
        ),
    }
}

/// Calls `serde_yaml::to_string` on the value. The text it writes depends on the value alone
/// and is named `yaml_text`. The call succeeds on every such value: `to_string` fails only
/// when the value's `Serialize` returns an error, and serde_yaml's `Value` serializes its
/// strings, sequences and mappings without one (its serializer refuses only byte strings
/// and nested tags, neither of which a converted value holds).
#[verifier::external_body]
pub(crate) fn yaml_to_string(v: &Yaml) -> (r: Option<String>)
    ensures
        r is Some,
        r matches Some(s) ==> s@ == yaml_text(v@),
{
    serde_yaml::to_string(&to_serde_value(v)).ok()
}

} // verus!
