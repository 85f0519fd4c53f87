//! Which parts of the Sparkplug namespace an application subscribes to.

use crate::types::{topic_filter_string, QoS, Topic, TopicFilter};
use vstd::prelude::*;

verus! {

/// A part of the namespace to subscribe to: a whole group or one node.
#[derive(Clone, Debug)]
pub enum NamespaceSubConfig {
    Group { group_id: String },
    Node { group_id: String, node_id: String },
}

/// The topic a namespace part stands for.
pub open spec fn namespace_topic(c: NamespaceSubConfig) -> Topic {
    match c {
        NamespaceSubConfig::Group { group_id } => Topic::Group { id: group_id },
        NamespaceSubConfig::Node { group_id, node_id } => Topic::Node { group_id, node_id },
    }
}

impl NamespaceSubConfig {
    /// The filter subscribing to this part of the namespace, at QoS 0.
    pub fn into_topic_filter(self) -> (r: TopicFilter)
        ensures
            r.topic@ == topic_filter_string(namespace_topic(self)),
            r.qos == QoS::AtMostOnce,
    {
        match self {
            NamespaceSubConfig::Group { group_id } => TopicFilter::new_with_qos(
                Topic::Group { id: group_id },
                QoS::AtMostOnce,
            ),
            NamespaceSubConfig::Node { group_id, node_id } => TopicFilter::new_with_qos(
                Topic::Node { group_id, node_id },
                QoS::AtMostOnce,
            ),
        }
    }
}

/// What an application subscribes to.
#[derive(Clone, Debug)]
pub enum AppSubscriptionConfig {
    AllGroups,
    SingleGroup { group_id: String },
    Custom(Vec<NamespaceSubConfig>),
}

/// The topics an application subscription stands for.
pub open spec fn subscription_topics(c: AppSubscriptionConfig) -> Seq<Topic> {
    match c {
        AppSubscriptionConfig::AllGroups => seq![Topic::Namespace],
        AppSubscriptionConfig::SingleGroup { group_id } => seq![Topic::Group { id: group_id }],
        AppSubscriptionConfig::Custom(v) => v@.map_values(|n: NamespaceSubConfig| namespace_topic(n)),
    }
}

impl AppSubscriptionConfig {
    /// The filters to subscribe with: one per topic, each at QoS 0.
    pub fn into_topic_filters(self) -> (r: Vec<TopicFilter>)
        ensures
            r@.len() == subscription_topics(self).len(),
            forall|i: int|
                0 <= i < r@.len() ==> (#[trigger] r@[i]).topic@ == topic_filter_string(
                    subscription_topics(self)[i],
                ) && r@[i].qos == QoS::AtMostOnce,
    {
        match self {
            AppSubscriptionConfig::AllGroups => {
                let mut v = Vec::new();
                v.push(TopicFilter::new_with_qos(Topic::Namespace, QoS::AtMostOnce));
                v
            },
            AppSubscriptionConfig::SingleGroup { group_id } => {
                let mut v = Vec::new();
                v.push(TopicFilter::new_with_qos(Topic::Group { id: group_id }, QoS::AtMostOnce));
                v
            },
            AppSubscriptionConfig::Custom(configs) => {
                let ghost cs = configs@;
                let mut out: Vec<TopicFilter> = Vec::new();
                for c in it: configs.into_iter()
                    invariant
                        it.seq() == cs,
                        out@.len() == it.index(),
                        forall|i: int|
                            0 <= i < out@.len() ==> (#[trigger] out@[i]).topic@
                                == topic_filter_string(namespace_topic(cs[i])) && out@[i].qos
                                == QoS::AtMostOnce,
                {
                    let ghost k = it.index();
                    assert(c == cs[k]);
                    out.push(c.into_topic_filter());
                }
                out
            },
        }
    }
}

} // verus!
