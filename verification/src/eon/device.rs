//! The session state of a device of an edge node: whether it is enabled and
//! birthed, what each lifecycle event asks to be published, and its
//! messages.

use crate::eon::birth::{BirthInitializer, BirthObjectType};
use crate::eon::manager::MetricManager;
use crate::eon::metric::{PublishError, PublishMetric};
use crate::eon::node::{publish_metrics, EoNState};
use crate::types::{device_topic_string, DeviceMessageType, DeviceTopic, Payload};
use vstd::prelude::*;

verus! {

/// Whether a birth starts a node's session or repeats one.
#[derive(Debug, PartialEq, Eq, Structural, Clone, Copy)]
pub enum BirthType {
    Birth,
    Rebirth,
}

/// What happens to a device.
#[derive(Debug, PartialEq, Eq, Structural, Clone, Copy)]
pub enum DeviceInput {
    /// Its node was born or reborn.
    NodeBirth(BirthType),
    /// Its node's session ended.
    NodeDeath,
    /// It was unregistered.
    Removed,
    /// Its handle enabled it.
    Enable,
    /// Its handle disabled it.
    Disable,
    /// Its handle asked for a rebirth.
    Rebirth,
}

/// What a device asks to be published after an input.
#[derive(Debug, PartialEq, Eq, Structural, Clone, Copy)]
pub enum DeviceAction {
    /// Nothing.
    Nothing,
    /// A birth of the device.
    PublishBirth(BirthType),
    /// A death of the device.
    PublishDeath,
}

/// The session state of a device.
pub struct Device {
    id: u32,
    name: String,
    birthed: bool,
    enabled: bool,
}

impl Device {
    pub closed spec fn spec_id(&self) -> u32 {
        self.id
    }

    pub closed spec fn spec_name(&self) -> Seq<char> {
        self.name@
    }

    pub closed spec fn spec_birthed(&self) -> bool {
        self.birthed
    }

    pub closed spec fn spec_enabled(&self) -> bool {
        self.enabled
    }

    /// A device named `name` with id `id`, neither enabled nor birthed.
    pub fn new(id: u32, name: String) -> (r: Self)
        ensures
            r.spec_id() == id,
            r.spec_name() == name@,
            !r.spec_birthed(),
            !r.spec_enabled(),
    {
        Device { id, name, birthed: false, enabled: false }
    }

    /// The device's name.
    pub fn name(&self) -> (r: &str)
        ensures
            r@ == self.spec_name(),
    {
        self.name.as_str()
    }

    /// The device's id.
    pub fn id(&self) -> (r: u32)
        ensures
            r == self.spec_id(),
    {
        self.id
    }

    /// Whether the device's birth has been published since its node's last birth.
    pub fn birthed(&self) -> (r: bool)
        ensures
            r == self.spec_birthed(),
    {
        self.birthed
    }

    /// Whether a birth of `birth_type` is to be published: the device must
    /// be enabled and its node birthed, and a plain birth is not repeated
    /// for a device that is already birthed.
    pub open spec fn spec_should_birth(&self, birth_type: BirthType, node_birthed: bool) -> bool {
        &&& self.spec_enabled()
        &&& node_birthed
        &&& !(birth_type == BirthType::Birth && self.spec_birthed())
    }

    fn should_birth(&self, birth_type: BirthType, node_birthed: bool) -> (r: bool)
        ensures
            r == self.spec_should_birth(birth_type, node_birthed),
    {
        self.enabled && node_birthed && !(birth_type == BirthType::Birth && self.birthed)
    }

    /// Ends the device's session; answers whether it was birthed, that is
    /// whether there is a session whose end can be published.
    fn end_session(&mut self) -> (r: bool)
        ensures
            r == old(self).spec_birthed(),
            !final(self).spec_birthed(),
            final(self).spec_enabled() == old(self).spec_enabled(),
            final(self).spec_id() == old(self).spec_id(),
            final(self).spec_name() == old(self).spec_name(),
    {
        let was_birthed = self.birthed;
        self.birthed = false;
        was_birthed
    }

    /// Takes `input`, given whether the device's node is birthed, and says
    /// what is to be published. A birth is published only for an enabled
    /// device of a birthed node, and a plain birth only for a device that is
    /// not birthed; a death only for a birthed device, when it is disabled or
    /// removed. A node's death ends the device's session without a message.
    pub fn step(&mut self, input: DeviceInput, node_birthed: bool) -> (r: DeviceAction)
        ensures
            final(self).spec_id() == old(self).spec_id(),
            final(self).spec_name() == old(self).spec_name(),
            final(self).spec_enabled() == match input {
                DeviceInput::Enable => true,
                DeviceInput::Disable => false,
                _ => old(self).spec_enabled(),
            },
            match input {
                DeviceInput::NodeBirth(t) => {
                    &&& final(self).spec_birthed() == old(self).spec_birthed()
                    &&& r == if old(self).spec_should_birth(t, node_birthed) {
                        DeviceAction::PublishBirth(t)
                    } else {
                        DeviceAction::Nothing
                    }
                },
                DeviceInput::Rebirth => {
                    &&& final(self).spec_birthed() == old(self).spec_birthed()
                    &&& r == if old(self).spec_should_birth(BirthType::Rebirth, node_birthed) {
                        DeviceAction::PublishBirth(BirthType::Rebirth)
                    } else {
                        DeviceAction::Nothing
                    }
                },
                DeviceInput::Enable => {
                    &&& final(self).spec_birthed() == old(self).spec_birthed()
                    &&& r == if node_birthed && !old(self).spec_birthed() {
                        DeviceAction::PublishBirth(BirthType::Birth)
                    } else {
                        DeviceAction::Nothing
                    }
                },
                DeviceInput::NodeDeath => {
                    &&& !final(self).spec_birthed()
                    &&& r == DeviceAction::Nothing
                },
                DeviceInput::Removed | DeviceInput::Disable => {
                    &&& !final(self).spec_birthed()
                    &&& r == if old(self).spec_birthed() {
                        DeviceAction::PublishDeath
                    } else {
                        DeviceAction::Nothing
                    }
                },
            },
    {
        match input {
            DeviceInput::NodeBirth(t) => {
                if self.should_birth(t, node_birthed) {
                    DeviceAction::PublishBirth(t)
                } else {
                    DeviceAction::Nothing
                }
            },
            DeviceInput::Rebirth => {
                if self.should_birth(BirthType::Rebirth, node_birthed) {
                    DeviceAction::PublishBirth(BirthType::Rebirth)
                } else {
                    DeviceAction::Nothing
                }
            },
            DeviceInput::Enable => {
                self.enabled = true;
                if self.should_birth(BirthType::Birth, node_birthed) {
                    DeviceAction::PublishBirth(BirthType::Birth)
                } else {
                    DeviceAction::Nothing
                }
            },
            DeviceInput::NodeDeath => {
                self.end_session();
                DeviceAction::Nothing
            },
            DeviceInput::Removed => {
                if self.end_session() {
                    DeviceAction::PublishDeath
                } else {
                    DeviceAction::Nothing
                }
            },
            DeviceInput::Disable => {
                self.enabled = false;
                if self.end_session() {
                    DeviceAction::PublishDeath
                } else {
                    DeviceAction::Nothing
                }
            },
        }
    }

    /// The topic of the device's `message_type` messages.
    pub fn topic(&self, node: &EoNState, message_type: DeviceMessageType) -> (r: DeviceTopic)
        ensures
            r.topic@ == device_topic_string(
                node.spec_group_id(),
                message_type,
                node.spec_node_id(),
                self.spec_name(),
            ),
            r.message_type == message_type,
    {
        DeviceTopic::new(node.group_id(), message_type, node.edge_node_id(), self.name.as_str())
    }

    /// Starts a birth of the device with `manager`'s metrics, stamped
    /// `timestamp`: the device counts as unbirthed until the birth is
    /// published, and the birth takes the node's next sequence number.
    pub fn birth_payload<M: MetricManager>(
        &mut self,
        manager: &mut M,
        node: &mut EoNState,
        timestamp: u64,
    ) -> (r: (DeviceTopic, Payload))
        ensures
            !final(self).spec_birthed(),
            final(self).spec_enabled() == old(self).spec_enabled(),
            final(self).spec_id() == old(self).spec_id(),
            final(self).spec_name() == old(self).spec_name(),
            r.0.topic@ == device_topic_string(
                old(node).spec_group_id(),
                DeviceMessageType::DBirth,
                old(node).spec_node_id(),
                old(self).spec_name(),
            ),
            r.0.message_type == DeviceMessageType::DBirth,
            r.1.seq == Some(old(node).spec_seq() as u64),
            r.1.timestamp == Some(timestamp),
            r.1.uuid is None,
            r.1.body is None,
            final(node).spec_seq() == (old(node).spec_seq() + 1) % 256,
            final(node).spec_bdseq() == old(node).spec_bdseq(),
            final(node).spec_online() == old(node).spec_online(),
            final(node).spec_birthed() == old(node).spec_birthed(),
            final(node).spec_group_id() == old(node).spec_group_id(),
            final(node).spec_node_id() == old(node).spec_node_id(),
            old(manager).spec_births(Seq::empty(), r.1.metrics@),
    {
        self.birthed = false;
        let mut birth_initializer = BirthInitializer::new(BirthObjectType::Device(self.id));
        manager.initialise_birth(&mut birth_initializer, timestamp);
        let metrics = birth_initializer.finish();
        let topic = self.topic(node, DeviceMessageType::DBirth);
        let seq = node.get_seq();
        (topic, Payload { seq: Some(seq), timestamp: Some(timestamp), metrics, uuid: None, body: None })
    }

    /// The birth has been published: the device is birthed.
    pub fn birth_published(&mut self)
        ensures
            final(self).spec_birthed(),
            final(self).spec_enabled() == old(self).spec_enabled(),
            final(self).spec_id() == old(self).spec_id(),
            final(self).spec_name() == old(self).spec_name(),
    {
        self.birthed = true;
    }

    /// The device's death message, stamped `timestamp`: no metrics, and the
    /// node's next sequence number.
    pub fn death_payload(&self, node: &mut EoNState, timestamp: u64) -> (r: (DeviceTopic, Payload))
        ensures
            r.0.topic@ == device_topic_string(
                old(node).spec_group_id(),
                DeviceMessageType::DDeath,
                old(node).spec_node_id(),
                self.spec_name(),
            ),
            r.0.message_type == DeviceMessageType::DDeath,
            r.1.seq == Some(old(node).spec_seq() as u64),
            r.1.timestamp == Some(timestamp),
            r.1.metrics@.len() == 0,
            r.1.uuid is None,
            r.1.body is None,
            final(node).spec_seq() == (old(node).spec_seq() + 1) % 256,
            final(node).spec_bdseq() == old(node).spec_bdseq(),
            final(node).spec_online() == old(node).spec_online(),
            final(node).spec_birthed() == old(node).spec_birthed(),
            final(node).spec_group_id() == old(node).spec_group_id(),
            final(node).spec_node_id() == old(node).spec_node_id(),
    {
        let topic = self.topic(node, DeviceMessageType::DDeath);
        let seq = node.get_seq();
        (
            topic,
            Payload {
                seq: Some(seq),
                timestamp: Some(timestamp),
                metrics: Vec::new(),
                uuid: None,
                body: None,
            },
        )
    }

    /// Whether the device may publish data: its node must be online and
    /// birthed, and the device birthed.
    pub fn check_publish_state(&self, node: &EoNState) -> (r: Result<(), PublishError>)
        ensures
            !node.spec_online() ==> r == Err::<(), PublishError>(PublishError::Offline),
            node.spec_online() && !(node.spec_birthed() && self.spec_birthed()) ==> r == Err::<
                (),
                PublishError,
            >(PublishError::UnBirthed),
            node.spec_online() && node.spec_birthed() && self.spec_birthed() ==> r is Ok,
    {
        node.check_publish_state()?;
        if !self.birthed {
            return Err(PublishError::UnBirthed);
        }
        Ok(())
    }

    /// The device data payload for publishing `metrics` at `timestamp`:
    /// there must be metrics, the node must be online and birthed and the
    /// device birthed. Only a payload that is handed back uses up one of the
    /// node's sequence numbers.
    pub fn prepare_device_data(
        &self,
        metrics: Vec<PublishMetric>,
        node: &mut EoNState,
        timestamp: u64,
    ) -> (r: Result<Payload, PublishError>)
        ensures
            metrics@.len() == 0 ==> r == Err::<Payload, PublishError>(PublishError::NoMetrics),
            metrics@.len() > 0 && !old(node).spec_online() ==> r == Err::<Payload, PublishError>(
                PublishError::Offline,
            ),
            metrics@.len() > 0 && old(node).spec_online() && !(old(node).spec_birthed()
                && self.spec_birthed()) ==> r == Err::<Payload, PublishError>(
                PublishError::UnBirthed,
            ),
            r is Err ==> *final(node) == *old(node),
            r matches Ok(p) ==> {
                &&& metrics@.len() > 0 && old(node).spec_online() && old(node).spec_birthed()
                    && self.spec_birthed()
                &&& p.seq == Some(old(node).spec_seq() as u64)
                &&& p.timestamp == Some(timestamp)
                &&& p.metrics@ == publish_metrics(metrics@)
                &&& final(node).spec_seq() == (old(node).spec_seq() + 1) % 256
                &&& final(node).spec_bdseq() == old(node).spec_bdseq()
                &&& final(node).spec_online() == old(node).spec_online()
                &&& final(node).spec_birthed() == old(node).spec_birthed()
                &&& final(node).spec_group_id() == old(node).spec_group_id()
                &&& final(node).spec_node_id() == old(node).spec_node_id()
            },
    {
        if metrics.len() == 0 {
            return Err(PublishError::NoMetrics);
        }
        self.check_publish_state(node)?;
        Ok(node.publish_metrics_to_payload(metrics, timestamp))
    }
}

} // verus!
