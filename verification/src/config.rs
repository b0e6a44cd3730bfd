//! The configuration: environment variables and the preset values of each.

use vstd::prelude::*;
use crate::i18n::I18nMessages;
use crate::table::{
    as_map, lemma_as_map_finite, lemma_entry, lemma_push, lemma_update, names, position,
};
use crate::text::views;

verus! {

/// The name of a configuration file, in the working directory and in the
/// home directory.
pub const FILE_NAME: &'static str = ".env.swap.toml";

/// A preset value as the contracts see it: the text shown for it and the
/// text assigned to the variable.
pub struct ValueEntry {
    pub label: Seq<char>,
    pub value: Seq<char>,
}

/// One preset value of a variable.
#[derive(Debug)]
pub struct EnvValue {
    pub label: String,
    pub value: String,
}

impl View for EnvValue {
    type V = ValueEntry;

    open spec fn view(&self) -> ValueEntry {
        ValueEntry { label: self.label@, value: self.value@ }
    }
}

/// The preset values of one variable, in the order in which they are
/// offered.
#[derive(Debug)]
pub struct EnvVar {
    pub values: Vec<EnvValue>,
}

impl View for EnvVar {
    type V = Seq<ValueEntry>;

    open spec fn view(&self) -> Seq<ValueEntry> {
        Seq::new(self.values@.len(), |i: int| self.values@[i]@)
    }
}

impl Clone for EnvValue {
    fn clone(&self) -> (copy: Self)
        ensures
            copy@ == self@,
    {
        EnvValue { label: self.label.clone(), value: self.value.clone() }
    }
}

impl Clone for EnvVar {
    fn clone(&self) -> (copy: Self)
        ensures
            copy@ == self@,
    {
        let mut values: Vec<EnvValue> = Vec::new();
        let mut i: usize = 0;
        while i < self.values.len()
            invariant
                i <= self.values.len(),
                values@.len() == i,
                forall|j: int| 0 <= j < i ==> values@[j]@ == self.values@[j]@,
            decreases self.values.len() - i,
        {
            values.push(self.values[i].clone());
            i += 1;
        }
        EnvVar { values }
    }
}

/// A configuration is well formed when it has finitely many variables and
/// each of them offers at least one value.
pub open spec fn well_formed(config: Map<Seq<char>, Seq<ValueEntry>>) -> bool {
    &&& config.dom().finite()
    &&& forall|name: Seq<char>| config.contains_key(name) ==> (#[trigger] config[name]).len() > 0
}

/// The union of two configurations. A variable of both offers the values of
/// the first, then those of the second.
pub open spec fn merged(
    first: Map<Seq<char>, Seq<ValueEntry>>,
    second: Map<Seq<char>, Seq<ValueEntry>>,
) -> Map<Seq<char>, Seq<ValueEntry>> {
    Map::new(
        |name: Seq<char>| first.contains_key(name) || second.contains_key(name),
        |name: Seq<char>|
            if first.contains_key(name) && second.contains_key(name) {
                first[name] + second[name]
            } else if first.contains_key(name) {
                first[name]
            } else {
                second[name]
            },
    )
}

/// What a list of variables stands for.
spec fn variables(entries: Seq<(String, EnvVar)>) -> Map<Seq<char>, Seq<ValueEntry>> {
    as_map(entries).map_values(|var: EnvVar| var@)
}

/// Whether every variable of the list offers a value.
spec fn all_offer_values(entries: Seq<(String, EnvVar)>) -> bool {
    forall|i: int| 0 <= i < entries.len() ==> (#[trigger] entries[i]).1.values@.len() > 0
}

proof fn lemma_variables_well_formed(entries: Seq<(String, EnvVar)>)
    requires
        names(entries).no_duplicates(),
        all_offer_values(entries),
    ensures
        well_formed(variables(entries)),
        variables(entries).dom() == names(entries).to_set(),
        variables(entries).dom().len() == entries.len(),
{
    lemma_as_map_finite(entries);
    assert(variables(entries).dom() =~= as_map(entries).dom());
    assert forall|name: Seq<char>| variables(entries).contains_key(name) implies (
    #[trigger] variables(entries)[name]).len() > 0 by {
        let i = names(entries).index_of(name);
        lemma_entry(entries, i);
    }
}

/// The variables that can be set, each with its preset values. No name
/// occurs twice, and every variable offers at least one value.
#[derive(Debug)]
pub struct Config {
    entries: Vec<(String, EnvVar)>,
}

impl View for Config {
    type V = Map<Seq<char>, Seq<ValueEntry>>;

    closed spec fn view(&self) -> Map<Seq<char>, Seq<ValueEntry>> {
        variables(self.entries@)
    }
}

impl Config {
    #[verifier::type_invariant]
    closed spec fn distinct_and_offering(&self) -> bool {
        &&& names(self.entries@).no_duplicates()
        &&& all_offer_values(self.entries@)
    }

    /// A configuration without variables.
    pub fn new() -> (config: Self)
        ensures
            config@ == Map::<Seq<char>, Seq<ValueEntry>>::empty(),
    {
        Config { entries: Vec::new() }
    }

    /// Sets the values of a variable, in place of those it had. A variable
    /// without values is not stored, and the configuration stays as it was.
    pub fn insert(&mut self, name: String, var: EnvVar) -> (stored: bool)
        ensures
            stored == (var@.len() > 0),
            final(self)@ == if stored {
                old(self)@.insert(name@, var@)
            } else {
                old(self)@
            },
    {
        proof {
            use_type_invariant(&*self);
        }
        if var.values.len() == 0 {
            return false;
        }
        let ghost before = self.entries@;
        let mut entries: Vec<(String, EnvVar)> = Vec::new();
        std::mem::swap(&mut entries, &mut self.entries);
        match position(&entries, name.as_str()) {
            Some(i) => {
                entries.remove(i);
                entries.insert(i, (name, var));
                proof {
                    assert(entries@ =~= before.update(i as int, (name, var)));
                    lemma_update(before, i as int, name, var);
                }
            },
            None => {
                entries.push((name, var));
                proof {
                    lemma_push(before, name, var);
                }
            },
        }
        self.entries = entries;
        true
    }

    /// The values of the variable `name`, if the configuration has it.
    pub fn get(&self, name: &str) -> (var: Option<&EnvVar>)
        ensures
            match var {
                Some(found) => self@.contains_key(name@) && found@ == self@[name@] && found@.len()
                    > 0,
                None => !self@.contains_key(name@),
            },
    {
        proof {
            use_type_invariant(self);
        }
        match position(&self.entries, name) {
            Some(i) => {
                proof {
                    lemma_entry(self.entries@, i as int);
                }
                Some(&self.entries[i].1)
            },
            None => None,
        }
    }

    /// Whether the configuration has the variable `name`.
    pub fn contains_key(&self, name: &str) -> (present: bool)
        ensures
            present == self@.contains_key(name@),
    {
        self.get(name).is_some()
    }

    /// The number of variables.
    pub fn len(&self) -> (count: usize)
        ensures
            well_formed(self@),
            count == self@.dom().len(),
    {
        proof {
            use_type_invariant(self);
            lemma_variables_well_formed(self.entries@);
        }
        self.entries.len()
    }

    /// Whether the configuration has no variable.
    pub fn is_empty(&self) -> (empty: bool)
        ensures
            empty == (self@.dom().len() == 0),
    {
        self.len() == 0
    }

    /// The names of the variables, each once, in no particular order.
    pub fn keys(&self) -> (keys: Vec<String>)
        ensures
            well_formed(self@),
            views(keys@).no_duplicates(),
            views(keys@).to_set() == self@.dom(),
    {
        proof {
            use_type_invariant(self);
            lemma_variables_well_formed(self.entries@);
        }
        let mut keys: Vec<String> = Vec::new();
        let mut i: usize = 0;
        while i < self.entries.len()
            invariant
                i <= self.entries.len(),
                keys@.len() == i,
                views(keys@) == names(self.entries@).take(i as int),
            decreases self.entries.len() - i,
        {
            let ghost earlier = keys@;
            let name = self.entries[i].0.clone();
            keys.push(name);
            proof {
                assert forall|j: int| 0 <= j < i + 1 implies views(keys@)[j] == names(
                    self.entries@,
                ).take(i + 1)[j] by {
                    if j < i {
                        assert(views(earlier)[j] == names(self.entries@).take(i as int)[j]);
                    }
                }
            }
            i += 1;
        }
        proof {
            assert(names(self.entries@).take(i as int) =~= names(self.entries@));
        }
        keys
    }

    /// Adds the values of `var` behind those that the variable `name` has;
    /// a variable that is new to the configuration gets them as its own.
    fn absorb(&mut self, name: String, var: EnvVar)
        requires
            var@.len() > 0,
        ensures
            final(self)@ == old(self)@.insert(
                name@,
                if old(self)@.contains_key(name@) {
                    old(self)@[name@] + var@
                } else {
                    var@
                },
            ),
    {
        proof {
            use_type_invariant(&*self);
        }
        let ghost before = self.entries@;
        let mut entries: Vec<(String, EnvVar)> = Vec::new();
        std::mem::swap(&mut entries, &mut self.entries);
        match position(&entries, name.as_str()) {
            Some(i) => {
                let (stored_name, mut stored) = entries.remove(i);
                let mut more = var.values;
                stored.values.append(&mut more);
                proof {
                    assert(stored@ =~= before[i as int].1@ + var@);
                    lemma_entry(before, i as int);
                    lemma_update(before, i as int, stored_name, stored);
                }
                entries.insert(i, (stored_name, stored));
                proof {
                    assert(entries@ =~= before.update(i as int, (stored_name, stored)));
                    assert(variables(entries@) =~= variables(before).insert(
                        name@,
                        variables(before)[name@] + var@,
                    ));
                }
            },
            None => {
                entries.push((name, var));
                proof {
                    lemma_push(before, name, var);
                }
            },
        }
        self.entries = entries;
    }
}

/// Why no configuration could be loaded.
#[derive(Debug)]
pub enum ConfigError {
    /// Neither the working directory nor the home directory holds a
    /// configuration file.
    NotFound,
    /// A configuration file could not be read or understood; the text says
    /// why.
    Failed(String),
}

impl ConfigError {
    /// The text of the error.
    pub open spec fn text(self) -> Seq<char> {
        match self {
            ConfigError::NotFound => "No .env.swap.toml file found in current or home directory."@,
            ConfigError::Failed(reason) => reason@,
        }
    }

    /// The text of the error.
    pub fn message(&self) -> (text: String)
        ensures
            text@ == self.text(),
    {
        match self {
            ConfigError::NotFound => String::from_str(
                "No .env.swap.toml file found in current or home directory.",
            ),
            ConfigError::Failed(reason) => reason.clone(),
        }
    }
}

/// What the user is told when no configuration could be loaded: the
/// localized `config_not_found` message where no file was found, and the
/// reason behind `Error loading config: ` otherwise.
pub open spec fn failure_text(error: ConfigError, messages: Map<Seq<char>, Seq<char>>) -> Seq<
    char,
> {
    match error {
        ConfigError::NotFound => crate::i18n::message(messages, "config_not_found"@),
        ConfigError::Failed(reason) => "Error loading config: "@ + reason@,
    }
}

/// Words the failure to load a configuration for the user.
pub fn load_failure_text(error: &ConfigError, i18n: &I18nMessages) -> (text: String)
    ensures
        text@ == failure_text(*error, i18n@),
{
    match error {
        ConfigError::NotFound => String::from_str(i18n.get("config_not_found")),
        ConfigError::Failed(reason) => {
            let mut text = String::from_str("Error loading config: ");
            text.append(reason.as_str());
            text
        },
    }
}

/// Merging keeps configurations well formed, and leaves a configuration as
/// it is where the other one is empty.
pub proof fn lemma_merged_well_formed(
    first: Map<Seq<char>, Seq<ValueEntry>>,
    second: Map<Seq<char>, Seq<ValueEntry>>,
)
    requires
        well_formed(first),
        well_formed(second),
    ensures
        well_formed(merged(first, second)),
        merged(first, second).dom() == first.dom().union(second.dom()),
        merged(first, Map::empty()) == first,
        merged(Map::empty(), second) == second,
{
    assert(merged(first, second).dom() =~= first.dom().union(second.dom()));
    vstd::set_lib::lemma_set_union_finite_iff(first.dom(), second.dom());
    assert(merged(first, Map::empty()) =~= first);
    assert(merged(Map::empty(), second) =~= second);
}

/// Taking one more variable into the second configuration of a merge adds
/// its values behind those that the merge has for it so far.
proof fn lemma_merged_insert(
    first: Map<Seq<char>, Seq<ValueEntry>>,
    second: Map<Seq<char>, Seq<ValueEntry>>,
    name: Seq<char>,
    values: Seq<ValueEntry>,
)
    requires
        !second.contains_key(name),
    ensures
        merged(first, second.insert(name, values)) == merged(first, second).insert(
            name,
            if merged(first, second).contains_key(name) {
                merged(first, second)[name] + values
            } else {
                values
            },
        ),
{
    assert(merged(first, second.insert(name, values)) =~= merged(first, second).insert(
        name,
        if merged(first, second).contains_key(name) {
            merged(first, second)[name] + values
        } else {
            values
        },
    ));
}

/// The first `count + 1` variables of a list stand for what the first
/// `count` stand for, with the next variable added.
proof fn lemma_variables_take(entries: Seq<(String, EnvVar)>, count: int)
    requires
        names(entries).no_duplicates(),
        0 <= count < entries.len(),
    ensures
        !variables(entries.take(count)).contains_key(entries[count].0@),
        variables(entries.take(count + 1)) == variables(entries.take(count)).insert(
            entries[count].0@,
            entries[count].1@,
        ),
{
    let shorter = entries.take(count);
    let (name, var) = entries[count];
    assert(names(entries)[count] == name@);
    assert forall|i: int| 0 <= i < shorter.len() implies names(shorter)[i] != name@ by {
        assert(names(entries)[i] == names(shorter)[i]);
    }
    assert forall|i: int, j: int|
        0 <= i < shorter.len() && 0 <= j < shorter.len() && i != j implies names(shorter)[i]
        != names(shorter)[j] by {
        assert(names(entries)[i] == names(shorter)[i]);
        assert(names(entries)[j] == names(shorter)[j]);
    }
    lemma_push(shorter, name, var);
    assert(entries.take(count + 1) =~= shorter.push((name, var)));
}

/// Merges the configuration of the working directory with that of the home
/// directory. Where only one of them is there, it is the result; where both
/// are, the values of the working directory come first.
pub fn merge_configs(work: Option<Config>, home: Option<Config>) -> (result: Result<
    Config,
    ConfigError,
>)
    ensures
        match (work, home) {
            (Some(first), Some(second)) => result matches Ok(config) && config@ == merged(
                first@,
                second@,
            ),
            (Some(first), None) => result matches Ok(config) && config@ == first@,
            (None, Some(second)) => result matches Ok(config) && config@ == second@,
            (None, None) => result matches Err(ConfigError::NotFound),
        },
{
    match (work, home) {
        (Some(work), Some(home)) => {
            proof {
                use_type_invariant(&home);
            }
            let ghost first = work@;
            let ghost source = home.entries@;
            let mut config = work;
            for entry in it: home.entries
                invariant
                    it.seq() == source,
                    names(source).no_duplicates(),
                    all_offer_values(source),
                    config@ == merged(first, variables(source.take(it.index()))),
            {
                let (name, var) = entry;
                proof {
                    lemma_variables_take(source, it.index());
                    lemma_merged_insert(
                        first,
                        variables(source.take(it.index())),
                        name@,
                        var@,
                    );
                }
                config.absorb(name, var);
            }
            proof {
                assert(source.take(source.len() as int) =~= source);
            }
            Ok(config)
        },
        (Some(work), None) => Ok(work),
        (None, Some(home)) => Ok(home),
        (None, None) => Err(ConfigError::NotFound),
    }
}

} // verus!
