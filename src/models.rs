//! Value types shared between the engine and the control surface: processor
//! kinds and their tags, parameter names, device and driver selection, and the
//! engine's startup errors.

use crate::text::text_eq;
use vstd::prelude::*;
use vstd::string::*;

verus! {

/// The kinds of frontline processor. `Clone` and `IR` are reserved: they have
/// no implementation yet.
#[derive(Clone, Copy, Debug, PartialEq, Eq, Structural)]
pub enum ProcessorType {
    SimpleDistortion,
    IR,
    Clone,
    CleanBooster,
    Ocd,
}

/// The tag that names a processor kind in snapshots and requests.
pub open spec fn processor_tag(t: ProcessorType) -> Seq<char> {
    match t {
        ProcessorType::SimpleDistortion => "simple_distortion"@,
        ProcessorType::IR => "ir"@,
        ProcessorType::Clone => "clone"@,
        ProcessorType::CleanBooster => "clean_booster"@,
        ProcessorType::Ocd => "ocd"@,
    }
}

/// Whether a processor of this kind can be built.
pub open spec fn is_implemented_spec(t: ProcessorType) -> bool {
    !(t is IR || t is Clone)
}

proof fn lemma_tags_distinct()
    ensures
        forall|a: ProcessorType, b: ProcessorType| processor_tag(a) == processor_tag(b) ==> a == b,
{
    reveal_strlit("simple_distortion");
    reveal_strlit("ir");
    reveal_strlit("clone");
    reveal_strlit("clean_booster");
    reveal_strlit("ocd");
    assert("simple_distortion"@.len() == 17);
    assert("clean_booster"@.len() == 13);
    assert("clone"@.len() == 5);
    assert("ocd"@.len() == 3);
    assert("ir"@.len() == 2);
}

/// The kind that a tag names, if any.
pub open spec fn kind_of_tag(s: Seq<char>) -> Option<ProcessorType> {
    if exists|t: ProcessorType| processor_tag(t) == s {
        Some(choose|t: ProcessorType| processor_tag(t) == s)
    } else {
        None
    }
}

/// A processor kind is read back from its tag: each tag names one kind
/// only, so a snapshot restores the kinds that wrote it.
pub proof fn lemma_tag_round_trip(t: ProcessorType)
    ensures
        kind_of_tag(processor_tag(t)) == Some(t),
{
    lemma_tags_distinct();
}

impl ProcessorType {
    /// The tag of this kind.
    pub fn tag(&self) -> (r: String)
        ensures
            r@ == processor_tag(*self),
    {
        match self {
            ProcessorType::SimpleDistortion => String::from_str("simple_distortion"),
            ProcessorType::IR => String::from_str("ir"),
            ProcessorType::Clone => String::from_str("clone"),
            ProcessorType::CleanBooster => String::from_str("clean_booster"),
            ProcessorType::Ocd => String::from_str("ocd"),
        }
    }

    /// The kind that `tag` names, or `None` when it names none.
    pub fn from_tag(tag: &str) -> (r: Option<ProcessorType>)
        ensures
            r == kind_of_tag(tag@),
    {
        proof {
            lemma_tags_distinct();
        }
        if text_eq(tag, "simple_distortion") {
            proof {
                lemma_tag_round_trip(ProcessorType::SimpleDistortion);
            }
            Some(ProcessorType::SimpleDistortion)
        } else if text_eq(tag, "ir") {
            proof {
                lemma_tag_round_trip(ProcessorType::IR);
            }
            Some(ProcessorType::IR)
        } else if text_eq(tag, "clone") {
            proof {
                lemma_tag_round_trip(ProcessorType::Clone);
            }
            Some(ProcessorType::Clone)
        } else if text_eq(tag, "clean_booster") {
            proof {
                lemma_tag_round_trip(ProcessorType::CleanBooster);
            }
            Some(ProcessorType::CleanBooster)
        } else if text_eq(tag, "ocd") {
            proof {
                lemma_tag_round_trip(ProcessorType::Ocd);
            }
            Some(ProcessorType::Ocd)
        } else {
            proof {
                assert forall|t: ProcessorType| processor_tag(t) != tag@ by {
                    match t {
                        ProcessorType::SimpleDistortion => {},
                        ProcessorType::IR => {},
                        ProcessorType::Clone => {},
                        ProcessorType::CleanBooster => {},
                        ProcessorType::Ocd => {},
                    }
                }
            }
            None
        }
    }

    /// Whether a processor of this kind can be built; the reserved kinds
    /// cannot, and selecting one must fail.
    pub fn is_implemented(&self) -> (r: bool)
        ensures
            r == is_implemented_spec(*self),
    {
        match self {
            ProcessorType::IR | ProcessorType::Clone => false,
            _ => true,
        }
    }

    /// The data directory whose files give the values of this kind's string
    /// parameter, for the kinds that have one.
    pub fn string_parameter_directory(&self) -> (r: Option<String>)
        ensures
            self is IR ==> (r matches Some(d) && d@ == "impulseResponses"@),
            self is Clone ==> (r matches Some(d) && d@ == "clones"@),
            !(self is IR || self is Clone) ==> r is None,
    {
        match self {
            ProcessorType::IR => Some(String::from_str("impulseResponses")),
            ProcessorType::Clone => Some(String::from_str("clones")),
            _ => None,
        }
    }
}

/// The names of processor parameters.
#[derive(Clone, Copy, Debug, PartialEq, Eq, Hash, Structural)]
pub enum Parameter {
    Drive,
    Volume,
    FilePath,
    Tone,
    FilterSwitch,
}

/// Every parameter name, in declaration order.
pub open spec fn all_parameters() -> Seq<Parameter> {
    seq![Parameter::Drive, Parameter::Volume, Parameter::FilePath, Parameter::Tone, Parameter::FilterSwitch]
}

impl Parameter {
    /// Every parameter name, in declaration order.
    pub fn all() -> (r: Vec<Parameter>)
        ensures
            r@ == all_parameters(),
    {
        let r = vec![Parameter::Drive, Parameter::Volume, Parameter::FilePath, Parameter::Tone, Parameter::FilterSwitch];
        assert(r@ =~= all_parameters());
        r
    }
}

/// Position of a parameter name in declaration order.
pub open spec fn parameter_rank(p: Parameter) -> int {
    match p {
        Parameter::Drive => 0,
        Parameter::Volume => 1,
        Parameter::FilePath => 2,
        Parameter::Tone => 3,
        Parameter::FilterSwitch => 4,
    }
}

/// The parameters that have a value, with that value, in declaration order:
/// `value_of` is asked once for every parameter name, and the names it
/// answers `None` for are left out.
pub fn parameters_with_values<V, F: Fn(Parameter) -> Option<V>>(value_of: F) -> (r: Vec<(Parameter, V)>)
    requires
        forall|p: Parameter| value_of.requires((p,)),
    ensures
        forall|k: int| 0 <= k < r@.len() ==> value_of.ensures((r@[k].0,), Some(r@[k].1)),
        forall|k1: int, k2: int| 0 <= k1 < k2 < r@.len() ==> parameter_rank(r@[k1].0) < parameter_rank(r@[k2].0),
        forall|p: Parameter| (forall|k: int| 0 <= k < r@.len() ==> r@[k].0 != p) ==> value_of.ensures((p,), None::<V>),
{
    let all = Parameter::all();
    let mut r: Vec<(Parameter, V)> = Vec::new();
    let mut i: usize = 0;
    while i < all.len()
        invariant
            all@ == all_parameters(),
            0 <= i <= all@.len(),
            forall|p: Parameter| value_of.requires((p,)),
            forall|k: int| 0 <= k < r@.len() ==> value_of.ensures((r@[k].0,), Some(r@[k].1)),
            forall|k: int| 0 <= k < r@.len() ==> parameter_rank(r@[k].0) < i,
            forall|k1: int, k2: int| 0 <= k1 < k2 < r@.len() ==> parameter_rank(r@[k1].0) < parameter_rank(r@[k2].0),
            forall|p: Parameter| parameter_rank(p) < i && (forall|k: int| 0 <= k < r@.len() ==> r@[k].0 != p)
                ==> value_of.ensures((p,), None::<V>),
        decreases all@.len() - i,
    {
        let p = all[i];
        assert(parameter_rank(p) == i);
        let ghost before = r@;
        let v = value_of(p);
        let ghost returned = v;
        match v {
            Some(x) => {
                r.push((p, x));
            },
            None => {},
        }
        proof {
            assert forall|q: Parameter| parameter_rank(q) < i + 1 && (forall|k: int| 0 <= k < r@.len() ==> r@[k].0 != q)
                implies value_of.ensures((q,), None::<V>) by {
                if parameter_rank(q) == i {
                    assert(q == p);
                    if returned is Some {
                        assert(r@[before.len() as int].0 == p);
                    }
                    assert(returned == None::<V>);
                } else {
                    assert forall|k: int| 0 <= k < before.len() implies before[k].0 != q by {
                        assert(r@[k] == before[k]);
                    }
                }
            }
        }
        i = i + 1;
    }
    proof {
        assert forall|p: Parameter| (forall|k: int| 0 <= k < r@.len() ==> r@[k].0 != p)
            implies value_of.ensures((p,), None::<V>) by {
            assert(parameter_rank(p) < 5);
        }
    }
    r
}

/// Which audio device to open: the host's default, or one by exact name.
#[derive(Clone, Debug)]
pub enum Device {
    Default,
    Named(String),
}

/// The device that a selector text names: `default`, or any other text as a
/// device name.
pub open spec fn parsed_device(input: Seq<char>, d: Device) -> bool {
    if input == "default"@ {
        d is Default
    } else {
        d matches Device::Named(name) && name@ == input
    }
}

impl Device {
    /// Reads a device selector.
    pub fn parse(input: &str) -> (r: Device)
        ensures
            parsed_device(input@, r),
    {
        if text_eq(input, "default") {
            Device::Default
        } else {
            Device::Named(String::from_str(input))
        }
    }
}

impl std::str::FromStr for Device {
    type Err = String;

    fn from_str(input: &str) -> Result<Device, String> {
        Ok(Device::parse(input))
    }
}

/// The audio backend to use.
#[derive(Clone, Copy, Debug, PartialEq, Eq, Structural)]
pub enum Driver {
    Default,
    Asio,
    Jack,
}

/// Errors of engine startup, one per phase.
#[derive(Clone, Copy, Debug, PartialEq, Eq, Structural)]
pub enum Error {
    BuildStream,
    DefaultDeviceNotFound,
    Device,
    DeviceName,
    Host,
    NamedDeviceNotFound,
    PauseStream,
    PlayStream,
}

/// The device that a selector resolves to.
#[derive(Clone, Copy, Debug, PartialEq, Eq, Structural)]
pub enum DeviceChoice {
    /// The host's default device.
    Default,
    /// The device at this position of the enumerated list.
    Listed(usize),
}

/// Whether enumerated device `i`, whose name may be unreadable, is called
/// `name`.
pub open spec fn device_named(names: Seq<Option<String>>, i: int, name: Seq<char>) -> bool {
    names[i] matches Some(n) && n@ == name
}

/// Resolves a device selector: the default device when the host has one, or
/// the first enumerated device whose name equals the selector's name.
pub fn select_device(selector: &Device, default_available: bool, names: &Vec<Option<String>>) -> (r: Result<DeviceChoice, Error>)
    ensures
        selector is Default ==> (default_available ==> r == Ok::<DeviceChoice, Error>(DeviceChoice::Default)),
        selector is Default ==> (!default_available ==> r == Err::<DeviceChoice, Error>(Error::DefaultDeviceNotFound)),
        selector matches Device::Named(name) ==> (r matches Ok(DeviceChoice::Listed(i)) ==> i < names@.len()
            && device_named(names@, i as int, name@)
            && forall|j: int| 0 <= j < i ==> !device_named(names@, j, name@)),
        selector matches Device::Named(name) ==> (r is Err ==> r == Err::<DeviceChoice, Error>(Error::NamedDeviceNotFound)
            && forall|j: int| 0 <= j < names@.len() ==> !device_named(names@, j, name@)),
        selector is Named ==> !(r matches Ok(DeviceChoice::Default)),
{
    match selector {
        Device::Default => {
            if default_available {
                Ok(DeviceChoice::Default)
            } else {
                Err(Error::DefaultDeviceNotFound)
            }
        },
        Device::Named(name) => {
            let mut i: usize = 0;
            while i < names.len()
                invariant
                    0 <= i <= names@.len(),
                    selector matches Device::Named(n) && n@ == name@,
                    forall|j: int| 0 <= j < i ==> !device_named(names@, j, name@),
                decreases names@.len() - i,
            {
                match &names[i] {
                    Some(candidate) => {
                        if text_eq(candidate.as_str(), name.as_str()) {
                            assert(names@[i as int] == Some(*candidate));
                            assert(device_named(names@, i as int, name@));
                            return Ok(DeviceChoice::Listed(i));
                        }
                    },
                    None => {},
                }
                i = i + 1;
            }
            Err(Error::NamedDeviceNotFound)
        },
    }
}

} // verus!
