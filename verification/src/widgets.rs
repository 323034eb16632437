//! What a front end keeps of the instances between two refreshes: a copy of
//! the last listing that can be stored, and the flags of the window.

use vstd::prelude::*;
use vstd::std_specs::convert::FromSpecImpl;
use crate::error::Error;
use crate::projection::{ports_label, ports_label_of, Instance, InstanceView};

verus! {

/// An instance as a front end stores it: without the runtime's handle.
#[derive(Debug, PartialEq, Eq)]
pub struct SerializableInstance {
    pub name: String,
    pub start_port: Option<u64>,
    pub end_port: Option<u64>,
    pub status: String,
}

/// The mathematical content of a [`SerializableInstance`].
pub struct SerializableInstanceView {
    pub name: Seq<char>,
    pub start_port: Option<u64>,
    pub end_port: Option<u64>,
    pub status: Seq<char>,
}

impl View for SerializableInstance {
    type V = SerializableInstanceView;

    open spec fn view(&self) -> SerializableInstanceView {
        SerializableInstanceView {
            name: self.name@,
            start_port: self.start_port,
            end_port: self.end_port,
            status: self.status@,
        }
    }
}

impl DeepView for SerializableInstance {
    type V = SerializableInstanceView;

    open spec fn deep_view(&self) -> SerializableInstanceView {
        self@
    }
}

impl SerializableInstanceView {
    /// The port range as a pair, where both ends are there.
    pub open spec fn port_range(self) -> Option<(u64, u64)> {
        match (self.start_port, self.end_port) {
            (Some(start), Some(end)) => Some((start, end)),
            _ => None,
        }
    }
}

/// What is stored of an instance: everything but the handle.
pub open spec fn stored_of(instance: InstanceView) -> SerializableInstanceView {
    SerializableInstanceView {
        name: instance.name,
        start_port: instance.start_port,
        end_port: instance.end_port,
        status: instance.status,
    }
}

impl Default for SerializableInstance {
    /// An instance without a name and a state, with both ports at zero.
    fn default() -> (instance: SerializableInstance)
        ensures
            instance@ == (SerializableInstanceView {
                name: Seq::empty(),
                start_port: Some(0),
                end_port: Some(0),
                status: Seq::empty(),
            }),
    {
        SerializableInstance {
            name: String::new(),
            start_port: Some(0),
            end_port: Some(0),
            status: String::new(),
        }
    }
}

impl From<&Instance> for SerializableInstance {
    fn from(i: &Instance) -> (stored: SerializableInstance) {
        SerializableInstance {
            name: i.name.clone(),
            start_port: i.start_port,
            end_port: i.end_port,
            status: i.status.clone(),
        }
    }
}

impl FromSpecImpl<&Instance> for SerializableInstance {
    open spec fn obeys_from_spec() -> bool {
        true
    }

    open spec fn from_spec(i: &Instance) -> SerializableInstance {
        SerializableInstance {
            name: i.name,
            start_port: i.start_port,
            end_port: i.end_port,
            status: i.status,
        }
    }
}

impl SerializableInstance {
    /// The port range for display: empty where an end is missing.
    pub fn ports_label(&self) -> (label: String)
        ensures
            label@ == ports_label_of(self@.port_range()),
    {
        match (self.start_port, self.end_port) {
            (Some(start), Some(end)) => ports_label(Some((start, end))),
            _ => ports_label(None),
        }
    }

    /// Whether the front end offers to stop the instance: it does where the
    /// instance shows a port range.
    pub fn can_stop(&self) -> (offered: bool)
        ensures
            offered == self@.port_range() is Some,
    {
        self.start_port.is_some() && self.end_port.is_some()
    }
}

/// What a window shows above its table.
#[derive(Debug, Clone, Copy, PartialEq, Eq, Structural)]
pub enum Heading {
    /// A refresh is under way.
    Refreshing,
    /// There is no instance to show.
    NoInstances,
}

/// The state of a front end's window.
#[derive(Debug, PartialEq, Eq)]
pub struct Window {
    instances: Vec<SerializableInstance>,
    refreshing: bool,
    dark: bool,
}

/// The mathematical content of a [`Window`].
pub struct WindowView {
    pub instances: Seq<SerializableInstanceView>,
    pub refreshing: bool,
    pub dark: bool,
}

impl View for Window {
    type V = WindowView;

    closed spec fn view(&self) -> WindowView {
        WindowView {
            instances: self.instances.deep_view(),
            refreshing: self.refreshing,
            dark: self.dark,
        }
    }
}

impl WindowView {
    /// What the window shows above its table, if anything.
    pub open spec fn heading(self) -> Option<Heading> {
        if self.refreshing {
            Some(Heading::Refreshing)
        } else if self.instances.len() == 0 {
            Some(Heading::NoInstances)
        } else {
            None
        }
    }
}

impl Default for Window {
    /// A dark window without instances that is not refreshing.
    fn default() -> (window: Window)
        ensures
            window@ == (WindowView { instances: Seq::empty(), refreshing: false, dark: true }),
    {
        let window = Window { instances: Vec::new(), refreshing: false, dark: true };
        assert(window.instances.deep_view() =~= Seq::<SerializableInstanceView>::empty());
        window
    }
}

impl Window {
    /// The instances of the last listing that arrived.
    pub fn instances(&self) -> (instances: &Vec<SerializableInstance>)
        ensures
            instances.deep_view() == self@.instances,
    {
        &self.instances
    }

    /// Whether a refresh is under way.
    pub fn is_refreshing(&self) -> (refreshing: bool)
        ensures
            refreshing == self@.refreshing,
    {
        self.refreshing
    }

    /// Whether the window is dark.
    pub fn is_dark(&self) -> (dark: bool)
        ensures
            dark == self@.dark,
    {
        self.dark
    }

    /// Makes the window dark or light.
    pub fn set_dark(&mut self, dark: bool)
        ensures
            final(self)@ == (WindowView { dark, ..old(self)@ }),
    {
        self.dark = dark;
    }

    /// What the window shows above its table, if anything.
    pub fn heading(&self) -> (heading: Option<Heading>)
        ensures
            heading == self@.heading(),
    {
        if self.refreshing {
            Some(Heading::Refreshing)
        } else if self.instances.len() == 0 {
            Some(Heading::NoInstances)
        } else {
            None
        }
    }

    /// Whether the window shows its table: it does as soon as there is an instance.
    pub fn shows_table(&self) -> (shown: bool)
        ensures
            shown == (self@.instances.len() > 0),
    {
        self.instances.len() > 0
    }

    /// Notes that a refresh has begun.
    pub fn begin_refresh(&mut self)
        ensures
            final(self)@ == (WindowView { refreshing: true, ..old(self)@ }),
    {
        self.refreshing = true;
    }

    /// Notes that a refresh was given up: the window keeps what it held.
    pub fn cancel_refresh(&mut self)
        ensures
            final(self)@ == (WindowView { refreshing: false, ..old(self)@ }),
    {
        self.refreshing = false;
    }

    /// Takes the result of a refresh. A listing replaces the instances that
    /// the window held. A failure leaves them as they are and is handed back
    /// for the caller to report. Either way the refresh is over.
    pub fn finish_refresh(&mut self, listing: Result<Vec<Instance>, Error>) -> (failure: Option<
        Error,
    >)
        ensures
            !final(self)@.refreshing,
            final(self)@.dark == old(self)@.dark,
            match listing {
                Ok(found) => {
                    &&& failure is None
                    &&& final(self)@.instances == found.deep_view().map_values(
                        |i: InstanceView| stored_of(i),
                    )
                },
                Err(e) => {
                    &&& failure == Some(e)
                    &&& final(self)@.instances == old(self)@.instances
                },
            },
    {
        self.refreshing = false;
        match listing {
            Ok(found) => {
                let mut stored: Vec<SerializableInstance> = Vec::new();
                let mut i: usize = 0;
                while i < found.len()
                    invariant
                        i <= found.len(),
                        stored.len() == i,
                        forall|k: int|
                            0 <= k < i ==> (#[trigger] stored[k])@ == stored_of(found[k]@),
                    decreases found.len() - i,
                {
                    stored.push(SerializableInstance::from(&found[i]));
                    i = i + 1;
                }
                self.instances = stored;
                None
            },
            Err(e) => Some(e),
        }
    }
}

} // verus!
