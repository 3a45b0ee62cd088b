use vstd::prelude::*;
use vstd::std_specs::cmp::PartialEqSpecImpl;

verus! {

/// What a plugin says of itself.
#[derive(Debug)]
pub struct NipartPluginInfo {
    pub name: String,
    pub version: String,
}

/// Mathematical model of what a plugin says of itself.
pub struct PluginInfoModel {
    pub name: Seq<char>,
    pub version: Seq<char>,
}

impl View for NipartPluginInfo {
    type V = PluginInfoModel;

    open spec fn view(&self) -> PluginInfoModel {
        PluginInfoModel { name: self.name@, version: self.version@ }
    }
}

impl Clone for NipartPluginInfo {
    fn clone(&self) -> (r: Self)
        ensures
            r@ == self@,
    {
        NipartPluginInfo { name: self.name.clone(), version: self.version.clone() }
    }
}

impl PartialEq for NipartPluginInfo {
    fn eq(&self, other: &Self) -> (r: bool) {
        self.name == other.name && self.version == other.version
    }
}

impl PartialEqSpecImpl for NipartPluginInfo {
    open spec fn obeys_eq_spec() -> bool {
        true
    }

    open spec fn eq_spec(&self, other: &Self) -> bool {
        self@ == other@
    }
}

/// The events that every plugin takes.
#[derive(Debug)]
#[non_exhaustive]
pub enum NipartPluginCommonEvent {
    QueryPluginInfo,
    QueryPluginInfoReply(NipartPluginInfo),
    Quit,
}

/// Mathematical model of an event that every plugin takes.
pub enum PluginCommonEventModel {
    QueryPluginInfo,
    QueryPluginInfoReply(PluginInfoModel),
    Quit,
}

impl View for NipartPluginCommonEvent {
    type V = PluginCommonEventModel;

    open spec fn view(&self) -> PluginCommonEventModel {
        match self {
            NipartPluginCommonEvent::QueryPluginInfo => PluginCommonEventModel::QueryPluginInfo,
            NipartPluginCommonEvent::QueryPluginInfoReply(i) => PluginCommonEventModel::QueryPluginInfoReply(
                i@,
            ),
            NipartPluginCommonEvent::Quit => PluginCommonEventModel::Quit,
        }
    }
}

impl Clone for NipartPluginCommonEvent {
    fn clone(&self) -> (r: Self)
        ensures
            r@ == self@,
    {
        match self {
            NipartPluginCommonEvent::QueryPluginInfo => NipartPluginCommonEvent::QueryPluginInfo,
            NipartPluginCommonEvent::QueryPluginInfoReply(i) => NipartPluginCommonEvent::QueryPluginInfoReply(
                i.clone(),
            ),
            NipartPluginCommonEvent::Quit => NipartPluginCommonEvent::Quit,
        }
    }
}

impl PartialEq for NipartPluginCommonEvent {
    fn eq(&self, other: &Self) -> (r: bool) {
        match (self, other) {
            (
                NipartPluginCommonEvent::QueryPluginInfo,
                NipartPluginCommonEvent::QueryPluginInfo,
            ) => true,
            (
                NipartPluginCommonEvent::QueryPluginInfoReply(a),
                NipartPluginCommonEvent::QueryPluginInfoReply(b),
            ) => *a == *b,
            (NipartPluginCommonEvent::Quit, NipartPluginCommonEvent::Quit) => true,
            _ => false,
        }
    }
}

impl PartialEqSpecImpl for NipartPluginCommonEvent {
    open spec fn obeys_eq_spec() -> bool {
        true
    }

    open spec fn eq_spec(&self, other: &Self) -> bool {
        self@ == other@
    }
}

} // verus!
