use vstd::assert_sets_equal;
use vstd::prelude::*;

use crate::caps::{
    axis_code_from_name, axis_code_of_name, axis_set_codes, key_code_from_name, key_code_of_name,
    key_set_codes, AxisSet, KeySet, AXIS_CODE_LIMIT, KEY_CODE_LIMIT,
};
use crate::events::{Keystroke, Mode};
use crate::router::VirtualDeviceConfig;

verus! {

/// The recognized configuration fields, already parsed out of the
/// configuration document into plain values.
pub struct Config {
    pub target_name: String,
    pub virtual_manipulator_prefix: String,
    pub virtual_mouse_prefix: String,
    pub virtual_mouse_keys: Vec<String>,
    pub virtual_mouse_axes: Vec<String>,
    pub toggle_sequence: Vec<(String, u16)>,
    pub default_mode: Mode,
}

/// A configuration error: a symbolic key or axis name that the platform's
/// code space does not recognize.
#[derive(Debug, PartialEq, Eq)]
pub struct ConfigError {
    pub name: String,
}

impl ConfigError {
    /// The descriptive message naming the offending symbol.
    pub fn message(&self) -> (r: String)
        ensures
            r@ == "event \""@ + self.name@ + "\" doesn't exist"@,
    {
        let mut r = "event \"".to_owned();
        r.append(self.name.as_str());
        r.append("\" doesn't exist");
        r
    }
}

/// The key codes that a list of symbolic names translates to.
pub open spec fn key_codes_of_names(names: Seq<Seq<char>>) -> Set<u16> {
    Set::new(
        |c: u16|
            exists|i: int|
                0 <= i < names.len() && key_code_of_name(#[trigger] names[i]) == Some(c),
    )
}

/// The axis codes that a list of symbolic names translates to.
pub open spec fn axis_codes_of_names(names: Seq<Seq<char>>) -> Set<u16> {
    Set::new(
        |c: u16|
            exists|i: int|
                0 <= i < names.len() && axis_code_of_name(#[trigger] names[i]) == Some(c),
    )
}

proof fn lemma_key_codes_of_names_empty()
    ensures
        key_codes_of_names(Seq::<Seq<char>>::empty()) == Set::<u16>::empty(),
{
    assert_sets_equal!(key_codes_of_names(Seq::<Seq<char>>::empty()) == Set::<u16>::empty());
}

proof fn lemma_axis_codes_of_names_empty()
    ensures
        axis_codes_of_names(Seq::<Seq<char>>::empty()) == Set::<u16>::empty(),
{
    assert_sets_equal!(axis_codes_of_names(Seq::<Seq<char>>::empty()) == Set::<u16>::empty());
}

proof fn lemma_key_codes_of_names_step(names: Seq<Seq<char>>, i: int, c: u16)
    requires
        0 <= i < names.len(),
        key_code_of_name(names[i]) == Some(c),
    ensures
        key_codes_of_names(names.take(i + 1)) == key_codes_of_names(names.take(i)).insert(c),
{
    assert_sets_equal!(
        key_codes_of_names(names.take(i + 1)) == key_codes_of_names(names.take(i)).insert(c),
        x => {
            if key_codes_of_names(names.take(i + 1)).contains(x) {
                let j = choose|j: int|
                    0 <= j < names.take(i + 1).len()
                        && key_code_of_name(#[trigger] names.take(i + 1)[j]) == Some(x);
                if j < i {
                    assert(names.take(i)[j] == names[j]);
                    assert(key_code_of_name(names.take(i)[j]) == Some(x));
                } else {
                    assert(names.take(i + 1)[j] == names[i]);
                }
            }
            if key_codes_of_names(names.take(i)).insert(c).contains(x) {
                if x == c {
                    assert(key_code_of_name(#[trigger] names.take(i + 1)[i]) == Some(x));
                } else {
                    let j = choose|j: int|
                        0 <= j < names.take(i).len()
                            && key_code_of_name(#[trigger] names.take(i)[j]) == Some(x);
                    assert(key_code_of_name(#[trigger] names.take(i + 1)[j]) == Some(x));
                }
            }
        }
    );
}

proof fn lemma_axis_codes_of_names_step(names: Seq<Seq<char>>, i: int, c: u16)
    requires
        0 <= i < names.len(),
        axis_code_of_name(names[i]) == Some(c),
    ensures
        axis_codes_of_names(names.take(i + 1)) == axis_codes_of_names(names.take(i)).insert(c),
{
    assert_sets_equal!(
        axis_codes_of_names(names.take(i + 1)) == axis_codes_of_names(names.take(i)).insert(c),
        x => {
            if axis_codes_of_names(names.take(i + 1)).contains(x) {
                let j = choose|j: int|
                    0 <= j < names.take(i + 1).len()
                        && axis_code_of_name(#[trigger] names.take(i + 1)[j]) == Some(x);
                if j < i {
                    assert(names.take(i)[j] == names[j]);
                    assert(axis_code_of_name(names.take(i)[j]) == Some(x));
                } else {
                    assert(names.take(i + 1)[j] == names[i]);
                }
            }
            if axis_codes_of_names(names.take(i)).insert(c).contains(x) {
                if x == c {
                    assert(axis_code_of_name(#[trigger] names.take(i + 1)[i]) == Some(x));
                } else {
                    let j = choose|j: int|
                        0 <= j < names.take(i).len()
                            && axis_code_of_name(#[trigger] names.take(i)[j]) == Some(x);
                    assert(axis_code_of_name(#[trigger] names.take(i + 1)[j]) == Some(x));
                }
            }
        }
    );
}

/// Law: a symbolic name accepted into a capability set can be looked up
/// again, and its code is a member of the set built from the whole list.
pub proof fn lemma_accepted_key_name_is_member(names: Seq<Seq<char>>, i: int)
    requires
        0 <= i < names.len(),
        key_code_of_name(names[i]) is Some,
    ensures
        key_codes_of_names(names).contains(key_code_of_name(names[i])->Some_0),
{
    let c = key_code_of_name(names[i])->Some_0;
    assert(key_code_of_name(names[i]) == Some(c));
}

/// Law: the same membership round-trip for axis names.
pub proof fn lemma_accepted_axis_name_is_member(names: Seq<Seq<char>>, i: int)
    requires
        0 <= i < names.len(),
        axis_code_of_name(names[i]) is Some,
    ensures
        axis_codes_of_names(names).contains(axis_code_of_name(names[i])->Some_0),
{
    let c = axis_code_of_name(names[i])->Some_0;
    assert(axis_code_of_name(names[i]) == Some(c));
}

impl VirtualDeviceConfig {
    /// Translate a list of symbolic key names into a capability set.
    /// Succeeds exactly when every name is recognized; otherwise reports the
    /// first name that is not, and no set is produced.
    pub fn prepare_keys(list: &[String]) -> (r: Result<KeySet, ConfigError>)
        ensures
            match r {
                Ok(ks) => {
                    &&& forall|i: int|
                        0 <= i < list@.len() ==> key_code_of_name(#[trigger] list@[i]@) is Some
                    &&& key_set_codes(ks) == key_codes_of_names(list.deep_view())
                },
                Err(e) => exists|i: int|
                    {
                        &&& 0 <= i < list@.len()
                        &&& key_code_of_name(#[trigger] list@[i]@) is None
                        &&& forall|j: int| 0 <= j < i ==> key_code_of_name(#[trigger] list@[j]@) is Some
                        &&& e.name@ == list@[i]@
                    },
            },
    {
        let ghost names = list.deep_view();
        let mut result = KeySet::new();
        proof {
            lemma_key_codes_of_names_empty();
            assert(names.take(0) =~= Seq::<Seq<char>>::empty());
        }
        let mut i: usize = 0;
        while i < list.len()
            invariant
                0 <= i <= list@.len(),
                names == list.deep_view(),
                forall|j: int| 0 <= j < i ==> key_code_of_name(#[trigger] list@[j]@) is Some,
                key_set_codes(result) == key_codes_of_names(names.take(i as int)),
            decreases list@.len() - i,
        {
            let name: &String = &list[i];
            match key_code_from_name(name.as_str()) {
                Some(code) => {
                    result.insert(code);
                    proof {
                        assert(names[i as int] == list@[i as int]@);
                        lemma_key_codes_of_names_step(names, i as int, code);
                    }
                },
                None => {
                    return Err(ConfigError { name: name.clone() });
                },
            }
            i += 1;
        }
        proof {
            assert(names.take(list@.len() as int) =~= names);
        }
        Ok(result)
    }

    /// Translate a list of symbolic axis names into a capability set, with
    /// the same success condition as `prepare_keys`.
    pub fn prepare_axes(list: &[String]) -> (r: Result<AxisSet, ConfigError>)
        ensures
            match r {
                Ok(axs) => {
                    &&& forall|i: int|
                        0 <= i < list@.len() ==> axis_code_of_name(#[trigger] list@[i]@) is Some
                    &&& axis_set_codes(axs) == axis_codes_of_names(list.deep_view())
                },
                Err(e) => exists|i: int|
                    {
                        &&& 0 <= i < list@.len()
                        &&& axis_code_of_name(#[trigger] list@[i]@) is None
                        &&& forall|j: int| 0 <= j < i ==> axis_code_of_name(#[trigger] list@[j]@) is Some
                        &&& e.name@ == list@[i]@
                    },
            },
    {
        let ghost names = list.deep_view();
        let mut result = AxisSet::new();
        proof {
            lemma_axis_codes_of_names_empty();
            assert(names.take(0) =~= Seq::<Seq<char>>::empty());
        }
        let mut i: usize = 0;
        while i < list.len()
            invariant
                0 <= i <= list@.len(),
                names == list.deep_view(),
                forall|j: int| 0 <= j < i ==> axis_code_of_name(#[trigger] list@[j]@) is Some,
                axis_set_codes(result) == axis_codes_of_names(names.take(i as int)),
            decreases list@.len() - i,
        {
            let name: &String = &list[i];
            match axis_code_from_name(name.as_str()) {
                Some(code) => {
                    result.insert(code);
                    proof {
                        assert(names[i as int] == list@[i as int]@);
                        lemma_axis_codes_of_names_step(names, i as int, code);
                    }
                },
                None => {
                    return Err(ConfigError { name: name.clone() });
                },
            }
            i += 1;
        }
        proof {
            assert(names.take(list@.len() as int) =~= names);
        }
        Ok(result)
    }

    /// Build a virtual-device configuration from a name and the two symbolic
    /// name lists; the key list is checked first, and the error names the
    /// first symbol that fails to translate.
    pub fn new(name: String, keys: &[String], axes: &[String]) -> (r: Result<
        VirtualDeviceConfig,
        ConfigError,
    >)
        ensures
            match r {
                Ok(cfg) => {
                    &&& cfg.name@ == name@
                    &&& forall|i: int|
                        0 <= i < keys@.len() ==> key_code_of_name(#[trigger] keys@[i]@) is Some
                    &&& key_set_codes(cfg.keys) == key_codes_of_names(keys.deep_view())
                    &&& forall|i: int|
                        0 <= i < axes@.len() ==> axis_code_of_name(#[trigger] axes@[i]@) is Some
                    &&& axis_set_codes(cfg.axes) == axis_codes_of_names(axes.deep_view())
                },
                Err(e) => {
                    ||| exists|i: int|
                        {
                            &&& 0 <= i < keys@.len()
                            &&& key_code_of_name(#[trigger] keys@[i]@) is None
                            &&& forall|j: int| 0 <= j < i ==> key_code_of_name(#[trigger] keys@[j]@) is Some
                            &&& e.name@ == keys@[i]@
                        }
                    ||| {
                        &&& forall|j: int|
                            0 <= j < keys@.len() ==> key_code_of_name(#[trigger] keys@[j]@) is Some
                        &&& exists|i: int|
                            {
                                &&& 0 <= i < axes@.len()
                                &&& axis_code_of_name(#[trigger] axes@[i]@) is None
                                &&& forall|j: int|
                                    0 <= j < i ==> axis_code_of_name(#[trigger] axes@[j]@) is Some
                                &&& e.name@ == axes@[i]@
                            }
                    }
                },
            },
    {
        let key_set = match Self::prepare_keys(keys) {
            Ok(ks) => ks,
            Err(e) => {
                return Err(e);
            },
        };
        let axis_set = match Self::prepare_axes(axes) {
            Ok(axs) => axs,
            Err(e) => {
                return Err(e);
            },
        };
        Ok(VirtualDeviceConfig { name, keys: key_set, axes: axis_set })
    }
}

impl Config {
    /// Translate the configured toggle sequence into keystrokes. Succeeds
    /// exactly when every symbolic key name is recognized; otherwise reports
    /// the first name that is not.
    pub fn toggle_sequence_to_keystrokes(&self) -> (r: Result<Vec<Keystroke>, ConfigError>)
        ensures
            match r {
                Ok(ks) => {
                    &&& ks@.len() == self.toggle_sequence@.len()
                    &&& forall|i: int|
                        0 <= i < ks@.len() ==> {
                            &&& key_code_of_name(#[trigger] self.toggle_sequence@[i].0@) is Some
                            &&& ks@[i] == (Keystroke {
                                key: key_code_of_name(self.toggle_sequence@[i].0@)->Some_0,
                                value: self.toggle_sequence@[i].1 as i32,
                            })
                        }
                },
                Err(e) => exists|i: int|
                    {
                        &&& 0 <= i < self.toggle_sequence@.len()
                        &&& key_code_of_name(#[trigger] self.toggle_sequence@[i].0@) is None
                        &&& forall|j: int|
                            0 <= j < i ==> key_code_of_name(
                                #[trigger] self.toggle_sequence@[j].0@,
                            ) is Some
                        &&& e.name@ == self.toggle_sequence@[i].0@
                    },
            },
    {
        let mut result: Vec<Keystroke> = Vec::new();
        let mut i: usize = 0;
        while i < self.toggle_sequence.len()
            invariant
                0 <= i <= self.toggle_sequence@.len(),
                result@.len() == i,
                forall|j: int|
                    0 <= j < i ==> {
                        &&& key_code_of_name(#[trigger] self.toggle_sequence@[j].0@) is Some
                        &&& result@[j] == (Keystroke {
                            key: key_code_of_name(self.toggle_sequence@[j].0@)->Some_0,
                            value: self.toggle_sequence@[j].1 as i32,
                        })
                    },
            decreases self.toggle_sequence@.len() - i,
        {
            let pair = &self.toggle_sequence[i];
            match key_code_from_name(pair.0.as_str()) {
                Some(code) => {
                    result.push(Keystroke { key: code, value: pair.1 as i32 });
                },
                None => {
                    return Err(ConfigError { name: pair.0.clone() });
                },
            }
            i += 1;
        }
        Ok(result)
    }
}

/// Prepend a prefix and a separating space to a device name.
pub fn prefix_device_name(prefix: &str, name: &str) -> (r: String)
    ensures
        r@ == prefix@ + seq![' '] + name@,
{
    let mut r = prefix.to_owned();
    r.append(" ");
    r.append(name);
    proof {
        reveal_strlit(" ");
        assert(" "@ =~= seq![' ']);
        assert(r@ =~= prefix@ + seq![' '] + name@);
    }
    r
}

/// Collect plain key codes into a capability set.
pub fn key_set_from_codes(codes: &Vec<u16>) -> (r: KeySet)
    requires
        forall|i: int| 0 <= i < codes@.len() ==> #[trigger] codes@[i] < KEY_CODE_LIMIT,
    ensures
        key_set_codes(r) == codes@.to_set(),
{
    let mut result = KeySet::new();
    proof {
        assert(codes@.take(0) =~= Seq::<u16>::empty());
        assert_sets_equal!(Seq::<u16>::empty().to_set() == Set::<u16>::empty());
    }
    let mut i: usize = 0;
    while i < codes.len()
        invariant
            0 <= i <= codes@.len(),
            forall|k: int| 0 <= k < codes@.len() ==> #[trigger] codes@[k] < KEY_CODE_LIMIT,
            key_set_codes(result) == codes@.take(i as int).to_set(),
        decreases codes@.len() - i,
    {
        result.insert(codes[i]);
        proof {
            lemma_take_to_set_step(codes@, i as int);
        }
        i += 1;
    }
    proof {
        assert(codes@.take(codes@.len() as int) =~= codes@);
    }
    result
}

/// Collect plain axis codes into a capability set.
pub fn axis_set_from_codes(codes: &Vec<u16>) -> (r: AxisSet)
    requires
        forall|i: int| 0 <= i < codes@.len() ==> #[trigger] codes@[i] < AXIS_CODE_LIMIT,
    ensures
        axis_set_codes(r) == codes@.to_set(),
{
    let mut result = AxisSet::new();
    proof {
        assert(codes@.take(0) =~= Seq::<u16>::empty());
        assert_sets_equal!(Seq::<u16>::empty().to_set() == Set::<u16>::empty());
    }
    let mut i: usize = 0;
    while i < codes.len()
        invariant
            0 <= i <= codes@.len(),
            forall|k: int| 0 <= k < codes@.len() ==> #[trigger] codes@[k] < AXIS_CODE_LIMIT,
            axis_set_codes(result) == codes@.take(i as int).to_set(),
        decreases codes@.len() - i,
    {
        result.insert(codes[i]);
        proof {
            lemma_take_to_set_step(codes@, i as int);
        }
        i += 1;
    }
    proof {
        assert(codes@.take(codes@.len() as int) =~= codes@);
    }
    result
}

proof fn lemma_take_to_set_step<A>(s: Seq<A>, i: int)
    requires
        0 <= i < s.len(),
    ensures
        s.take(i + 1).to_set() == s.take(i).to_set().insert(s[i]),
{
    assert_sets_equal!(
        s.take(i + 1).to_set() == s.take(i).to_set().insert(s[i]),
        x => {
            if s.take(i + 1).to_set().contains(x) {
                let j = choose|j: int| 0 <= j < s.take(i + 1).len() && #[trigger] s.take(i + 1)[j] == x;
                if j < i {
                    assert(s.take(i)[j] == x);
                    assert(s.take(i).contains(x));
                }
            }
            if s.take(i).to_set().insert(s[i]).contains(x) {
                if x == s[i] {
                    assert(s.take(i + 1)[i] == x);
                    assert(s.take(i + 1).contains(x));
                } else {
                    let j = choose|j: int| 0 <= j < s.take(i).len() && #[trigger] s.take(i)[j] == x;
                    assert(s.take(i + 1)[j] == x);
                    assert(s.take(i + 1).contains(x));
                }
            }
        }
    );
}

/// The compute part of setup: from the configuration, the grabbed device's
/// name and its supported key and axis codes, build the two virtual-device
/// configurations — the manipulator mirroring the physical device, the
/// mouse restricted to the configured lists. On failure the error names the
/// first mouse symbol that fails to translate, keys checked before axes.
pub fn plan_devices(
    config: &Config,
    target_name: &str,
    target_keys: &Vec<u16>,
    target_axes: &Vec<u16>,
) -> (r: Result<(VirtualDeviceConfig, VirtualDeviceConfig), ConfigError>)
    requires
        forall|i: int| 0 <= i < target_keys@.len() ==> #[trigger] target_keys@[i] < KEY_CODE_LIMIT,
        forall|i: int| 0 <= i < target_axes@.len() ==> #[trigger] target_axes@[i] < AXIS_CODE_LIMIT,
    ensures
        match r {
            Ok(pair) => {
                &&& pair.0.name@ == config.virtual_manipulator_prefix@ + seq![' '] + target_name@
                &&& key_set_codes(pair.0.keys) == target_keys@.to_set()
                &&& axis_set_codes(pair.0.axes) == target_axes@.to_set()
                &&& pair.1.name@ == config.virtual_mouse_prefix@ + seq![' '] + target_name@
                &&& forall|i: int|
                    0 <= i < config.virtual_mouse_keys@.len() ==> key_code_of_name(
                        #[trigger] config.virtual_mouse_keys@[i]@,
                    ) is Some
                &&& key_set_codes(pair.1.keys) == key_codes_of_names(
                    config.virtual_mouse_keys.deep_view(),
                )
                &&& forall|i: int|
                    0 <= i < config.virtual_mouse_axes@.len() ==> axis_code_of_name(
                        #[trigger] config.virtual_mouse_axes@[i]@,
                    ) is Some
                &&& axis_set_codes(pair.1.axes) == axis_codes_of_names(
                    config.virtual_mouse_axes.deep_view(),
                )
            },
            Err(e) => {
                ||| exists|i: int|
                    {
                        &&& 0 <= i < config.virtual_mouse_keys@.len()
                        &&& key_code_of_name(#[trigger] config.virtual_mouse_keys@[i]@) is None
                        &&& forall|j: int|
                            0 <= j < i ==> key_code_of_name(
                                #[trigger] config.virtual_mouse_keys@[j]@,
                            ) is Some
                        &&& e.name@ == config.virtual_mouse_keys@[i]@
                    }
                ||| {
                    &&& forall|j: int|
                        0 <= j < config.virtual_mouse_keys@.len() ==> key_code_of_name(
                            #[trigger] config.virtual_mouse_keys@[j]@,
                        ) is Some
                    &&& exists|i: int|
                        {
                            &&& 0 <= i < config.virtual_mouse_axes@.len()
                            &&& axis_code_of_name(
                                #[trigger] config.virtual_mouse_axes@[i]@,
                            ) is None
                            &&& forall|j: int|
                                0 <= j < i ==> axis_code_of_name(
                                    #[trigger] config.virtual_mouse_axes@[j]@,
                                ) is Some
                            &&& e.name@ == config.virtual_mouse_axes@[i]@
                        }
                }
            },
        },
{
    let manipulator = VirtualDeviceConfig {
        name: prefix_device_name(config.virtual_manipulator_prefix.as_str(), target_name),
        keys: key_set_from_codes(target_keys),
        axes: axis_set_from_codes(target_axes),
    };
    let mouse_name = prefix_device_name(config.virtual_mouse_prefix.as_str(), target_name);
    let mouse_keys = config.virtual_mouse_keys.as_slice();
    let mouse_axes = config.virtual_mouse_axes.as_slice();
    proof {
        assert(mouse_keys.deep_view() =~= config.virtual_mouse_keys.deep_view());
        assert(mouse_axes.deep_view() =~= config.virtual_mouse_axes.deep_view());
    }
    let mouse = match VirtualDeviceConfig::new(mouse_name, mouse_keys, mouse_axes) {
        Ok(cfg) => cfg,
        Err(e) => {
            return Err(e);
        },
    };
    Ok((manipulator, mouse))
}

} // verus!
