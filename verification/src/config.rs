//! Server configuration: named property groups, each an ordered sequence of
//! entries, each entry an ordered sequence of typed values.

use vstd::prelude::*;
use vstd::string::*;

verus! {

/// One typed value of a configuration entry.
pub enum ConfigValue {
    Text(String),
    Bool(bool),
    Integer(i128),
    Null,
}

/// The mathematical value that a `ConfigValue` stands for.
pub enum ValueModel {
    Text(Seq<char>),
    Bool(bool),
    Integer(int),
    Null,
}

/// The values of one entry, in order.
pub type EntryModel = Seq<ValueModel>;

/// The entries of one property group, in order.
pub type EntriesModel = Seq<Seq<ValueModel>>;

impl View for ConfigValue {
    type V = ValueModel;

    open spec fn view(&self) -> ValueModel {
        match self {
            ConfigValue::Text(s) => ValueModel::Text(s@),
            ConfigValue::Bool(b) => ValueModel::Bool(*b),
            ConfigValue::Integer(i) => ValueModel::Integer(*i as int),
            ConfigValue::Null => ValueModel::Null,
        }
    }
}

impl ConfigValue {
    /// Whether the value is a boolean.
    pub fn is_bool(&self) -> (r: bool)
        ensures
            r == (self@ is Bool),
    {
        match self {
            ConfigValue::Bool(_) => true,
            _ => false,
        }
    }

    /// The boolean that the value holds, if it is one.
    pub fn as_bool(&self) -> (r: Option<bool>)
        ensures
            r == (match self@ {
                ValueModel::Bool(b) => Some(b),
                _ => None,
            }),
    {
        match self {
            ConfigValue::Bool(b) => Some(*b),
            _ => None,
        }
    }

    /// Structural equality: both values stand for the same mathematical value.
    pub fn same(&self, other: &ConfigValue) -> (r: bool)
        ensures
            r == (self@ == other@),
    {
        match (self, other) {
            (ConfigValue::Text(a), ConfigValue::Text(b)) => *a == *b,
            (ConfigValue::Bool(a), ConfigValue::Bool(b)) => *a == *b,
            (ConfigValue::Integer(a), ConfigValue::Integer(b)) => *a == *b,
            (ConfigValue::Null, ConfigValue::Null) => true,
            _ => false,
        }
    }

    /// An independent copy that stands for the same value.
    pub fn duplicate(&self) -> (r: ConfigValue)
        ensures
            r@ == self@,
    {
        match self {
            ConfigValue::Text(s) => ConfigValue::Text(s.clone()),
            ConfigValue::Bool(b) => ConfigValue::Bool(*b),
            ConfigValue::Integer(i) => ConfigValue::Integer(*i),
            ConfigValue::Null => ConfigValue::Null,
        }
    }
}

/// One entry of a property group: an ordered sequence of values.
pub struct ConfigEntry {
    pub values: Vec<ConfigValue>,
}

impl View for ConfigEntry {
    type V = Seq<ValueModel>;

    open spec fn view(&self) -> Seq<ValueModel> {
        Seq::new(self.values@.len(), |i: int| self.values@[i]@)
    }
}

impl ConfigEntry {
    /// Structural equality of two entries.
    pub fn same(&self, other: &ConfigEntry) -> (r: bool)
        ensures
            r == (self@ == other@),
    {
        if self.values.len() != other.values.len() {
            assert(self@.len() != other@.len());
            return false;
        }
        let mut i: usize = 0;
        while i < self.values.len()
            invariant
                i <= self.values.len(),
                self.values.len() == other.values.len(),
                forall|j: int| 0 <= j < i ==> self@[j] == other@[j],
            decreases self.values.len() - i,
        {
            if !self.values[i].same(&other.values[i]) {
                assert(self@[i as int] != other@[i as int]);
                return false;
            }
            i = i + 1;
        }
        assert(self@ =~= other@);
        true
    }

    /// An independent copy that stands for the same entry.
    pub fn duplicate(&self) -> (r: ConfigEntry)
        ensures
            r@ == self@,
    {
        let mut values: Vec<ConfigValue> = Vec::new();
        let mut i: usize = 0;
        while i < self.values.len()
            invariant
                i <= self.values.len(),
                values@.len() == i,
                forall|j: int| 0 <= j < i ==> values@[j]@ == self.values@[j]@,
            decreases self.values.len() - i,
        {
            values.push(self.values[i].duplicate());
            i = i + 1;
        }
        let r = ConfigEntry { values };
        assert(r@ =~= self@);
        r
    }
}

/// The entries of one property group, in the order in which they were declared.
pub struct ConfigEntries {
    pub inner: Vec<ConfigEntry>,
}

impl View for ConfigEntries {
    type V = Seq<Seq<ValueModel>>;

    open spec fn view(&self) -> Seq<Seq<ValueModel>> {
        Seq::new(self.inner@.len(), |i: int| self.inner@[i]@)
    }
}

impl ConfigEntries {
    /// Structural equality of two property groups.
    pub fn same(&self, other: &ConfigEntries) -> (r: bool)
        ensures
            r == (self@ == other@),
    {
        if self.inner.len() != other.inner.len() {
            assert(self@.len() != other@.len());
            return false;
        }
        let mut i: usize = 0;
        while i < self.inner.len()
            invariant
                i <= self.inner.len(),
                self.inner.len() == other.inner.len(),
                forall|j: int| 0 <= j < i ==> self@[j] == other@[j],
            decreases self.inner.len() - i,
        {
            if !self.inner[i].same(&other.inner[i]) {
                assert(self@[i as int] != other@[i as int]);
                return false;
            }
            i = i + 1;
        }
        assert(self@ =~= other@);
        true
    }

    /// An independent copy that stands for the same property group.
    pub fn duplicate(&self) -> (r: ConfigEntries)
        ensures
            r@ == self@,
    {
        let mut inner: Vec<ConfigEntry> = Vec::new();
        let mut i: usize = 0;
        while i < self.inner.len()
            invariant
                i <= self.inner.len(),
                inner@.len() == i,
                forall|j: int| 0 <= j < i ==> inner@[j]@ == self.inner@[j]@,
            decreases self.inner.len() - i,
        {
            inner.push(self.inner[i].duplicate());
            i = i + 1;
        }
        let r = ConfigEntries { inner };
        assert(r@ =~= self@);
        r
    }
}

/// A named property group.
pub struct Property {
    pub name: String,
    pub entries: ConfigEntries,
}

/// An immutable snapshot of the configuration that applies to one module
/// instance. Where a name occurs more than once, the first occurrence counts.
pub struct ServerConfiguration {
    pub properties: Vec<Property>,
}

/// The entries of the first property of `props` named `name`.
pub open spec fn lookup(props: Seq<Property>, name: Seq<char>) -> Option<EntriesModel>
    decreases props.len(),
{
    if props.len() == 0 {
        None
    } else if props[0].name@ == name {
        Some(props[0].entries@)
    } else {
        lookup(props.drop_first(), name)
    }
}

impl ServerConfiguration {
    /// The property group that the configuration holds under `name`, if any.
    pub open spec fn entries_of(&self, name: Seq<char>) -> Option<EntriesModel> {
        lookup(self.properties@, name)
    }

    /// A configuration without properties.
    pub fn new() -> (r: ServerConfiguration)
        ensures
            forall|name: Seq<char>| r.entries_of(name) is None,
    {
        ServerConfiguration { properties: Vec::new() }
    }

    /// The named property group, if the configuration holds one.
    pub fn get_entries(&self, name: &str) -> (r: Option<&ConfigEntries>)
        ensures
            match r {
                Some(e) => self.entries_of(name@) == Some(e@),
                None => self.entries_of(name@) is None,
            },
    {
        let wanted = name.to_owned();
        let mut i: usize = 0;
        assert(self.properties@.subrange(0, self.properties@.len() as int) =~= self.properties@);
        while i < self.properties.len()
            invariant
                i <= self.properties.len(),
                wanted@ == name@,
                lookup(self.properties@, name@) == lookup(
                    self.properties@.subrange(i as int, self.properties@.len() as int),
                    name@,
                ),
            decreases self.properties.len() - i,
        {
            let ghost rest = self.properties@.subrange(i as int, self.properties@.len() as int);
            assert(rest[0] == self.properties@[i as int]);
            assert(rest.drop_first() =~= self.properties@.subrange(
                i as int + 1,
                self.properties@.len() as int,
            ));
            if self.properties[i].name == wanted {
                return Some(&self.properties[i].entries);
            }
            i = i + 1;
        }
        assert(self.properties@.subrange(i as int, self.properties@.len() as int).len() == 0);
        None
    }
}

/// The set of property names that some loader has inspected.
pub struct UsedProperties {
    pub names: Vec<String>,
}

impl View for UsedProperties {
    type V = Set<Seq<char>>;

    open spec fn view(&self) -> Set<Seq<char>> {
        Set::new(|name: Seq<char>| exists|i: int| 0 <= i < self.names@.len() && self.names@[i]@ == name)
    }
}

impl UsedProperties {
    /// The empty set.
    pub fn new() -> (r: UsedProperties)
        ensures
            r@ == Set::<Seq<char>>::empty(),
    {
        let r = UsedProperties { names: Vec::new() };
        assert(r@ =~= Set::<Seq<char>>::empty());
        r
    }

    /// Whether `name` has been marked.
    pub fn contains(&self, name: &str) -> (r: bool)
        ensures
            r == self@.contains(name@),
    {
        let wanted = name.to_owned();
        let mut i: usize = 0;
        while i < self.names.len()
            invariant
                i <= self.names.len(),
                wanted@ == name@,
                forall|j: int| 0 <= j < i ==> self.names@[j]@ != name@,
            decreases self.names.len() - i,
        {
            if self.names[i] == wanted {
                return true;
            }
            i = i + 1;
        }
        false
    }

    /// Marks `name` as inspected; every other name keeps its state.
    pub fn mark(&mut self, name: &str)
        ensures
            final(self)@ == old(self)@.insert(name@),
    {
        if !self.contains(name) {
            let ghost before = self.names@;
            self.names.push(name.to_owned());
            assert forall|n: Seq<char>| self@.contains(n) <==> old(self)@.insert(name@).contains(
                n,
            ) by {
                if old(self)@.contains(n) {
                    let i = choose|i: int| 0 <= i < before.len() && before[i]@ == n;
                    assert(self.names@[i]@ == n);
                }
                if n == name@ {
                    assert(self.names@[before.len() as int]@ == n);
                }
            }
            assert(self@ =~= old(self)@.insert(name@));
        } else {
            assert(self@ =~= old(self)@.insert(name@));
        }
    }
}

/// The shape rule that a property broke.
#[derive(Clone, Copy, Debug, PartialEq, Eq, Structural)]
pub enum ShapeViolation {
    /// An entry does not hold exactly one value.
    Cardinality,
    /// An entry's value is not of the required type.
    Type,
}

/// A property whose shape is wrong, with the rule that it broke.
pub struct ConfigurationError {
    pub violation: ShapeViolation,
    pub property: String,
}

impl ConfigurationError {
    /// The text that `message` returns.
    pub open spec fn message_text(&self) -> Seq<char> {
        match self.violation {
            ShapeViolation::Cardinality => "The `"@ + self.property@
                + "` configuration property must have exactly one value"@,
            ShapeViolation::Type => "The `"@ + self.property@
                + "` configuration property must be a boolean"@,
        }
    }

    /// A description that names the property and the violated rule.
    pub fn message(&self) -> (r: String)
        ensures
            r@ == self.message_text(),
    {
        let mut text = String::from_str("The `");
        text.append(self.property.as_str());
        match self.violation {
            ShapeViolation::Cardinality => {
                text.append("` configuration property must have exactly one value");
            },
            ShapeViolation::Type => {
                text.append("` configuration property must be a boolean");
            },
        }
        text
    }
}

/// The first violation among `entries` of the rule that every entry holds
/// exactly one value and that this value is a boolean.
pub open spec fn boolean_violation(entries: EntriesModel) -> Option<ShapeViolation>
    decreases entries.len(),
{
    if entries.len() == 0 {
        None
    } else if entries[0].len() != 1 {
        Some(ShapeViolation::Cardinality)
    } else if !(entries[0][0] is Bool) {
        Some(ShapeViolation::Type)
    } else {
        boolean_violation(entries.drop_first())
    }
}

/// What `validate_boolean_property` returns for a configuration that holds
/// `found` under the property's name.
pub open spec fn boolean_property_verdict(found: Option<EntriesModel>) -> Option<ShapeViolation> {
    match found {
        None => None,
        Some(entries) => boolean_violation(entries),
    }
}

/// Checks that each entry of the property `name` holds exactly one boolean.
/// A property that is absent is valid and leaves `used_properties` as it was;
/// one that is present is marked as inspected, whatever its shape.
pub fn validate_boolean_property(
    config: &ServerConfiguration,
    name: &str,
    used_properties: &mut UsedProperties,
) -> (r: Result<(), ConfigurationError>)
    ensures
        final(used_properties)@ == (if config.entries_of(name@) is Some {
            old(used_properties)@.insert(name@)
        } else {
            old(used_properties)@
        }),
        match boolean_property_verdict(config.entries_of(name@)) {
            None => r is Ok,
            Some(v) => r matches Err(e) && e.violation == v && e.property@ == name@,
        },
{
    match config.get_entries(name) {
        None => Ok(()),
        Some(entries) => {
            used_properties.mark(name);
            let mut i: usize = 0;
            assert(entries@.subrange(0, entries@.len() as int) =~= entries@);
            while i < entries.inner.len()
                invariant
                    i <= entries.inner.len(),
                    config.entries_of(name@) == Some(entries@),
                    used_properties@ == old(used_properties)@.insert(name@),
                    boolean_violation(entries@) == boolean_violation(
                        entries@.subrange(i as int, entries@.len() as int),
                    ),
                decreases entries.inner.len() - i,
            {
                let ghost rest = entries@.subrange(i as int, entries@.len() as int);
                assert(rest[0] == entries.inner@[i as int]@);
                assert(rest.drop_first() =~= entries@.subrange(i as int + 1, entries@.len() as int));
                let entry = &entries.inner[i];
                if entry.values.len() != 1 {
                    return Err(
                        ConfigurationError {
                            violation: ShapeViolation::Cardinality,
                            property: name.to_owned(),
                        },
                    );
                } else if !entry.values[0].is_bool() {
                    assert(entry@[0] == entry.values@[0]@);
                    return Err(
                        ConfigurationError {
                            violation: ShapeViolation::Type,
                            property: name.to_owned(),
                        },
                    );
                }
                assert(entry@[0] == entry.values@[0]@);
                i = i + 1;
            }
            assert(entries@.subrange(i as int, entries@.len() as int).len() == 0);
            Ok(())
        },
    }
}

} // verus!
