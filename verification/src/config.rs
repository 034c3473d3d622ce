//! What a benchmark run is configured with.

use vstd::prelude::*;
use vstd::string::*;
use crate::error::GatewayError;
use crate::manager::{WeightClass, WeightClassView};
use crate::node::{valid_name, HierarchyNode, NodePath};
use crate::wire::{Controller, ControllerSet, MAX_WEIGHT, MIN_WEIGHT};

verus! {

/// The name of the subgroup of the class labelled `label`.
pub open spec fn class_name(label: Seq<char>) -> Seq<char> {
    "thread_"@ + label
}

/// The mathematical form of a list of weight classes.
pub open spec fn classes_view(classes: Seq<WeightClass>) -> Seq<WeightClassView> {
    Seq::new(classes.len(), |i: int| classes[i]@)
}

/// The controllers a run delegates: the CPU controller, and the CPU-set
/// controller where it is asked for.
pub open spec fn delegated_controllers(with_cpuset: bool) -> Set<Controller> {
    if with_cpuset {
        Set::empty().insert(Controller::Cpu).insert(Controller::Cpuset)
    } else {
        Set::empty().insert(Controller::Cpu)
    }
}

/// The mathematical form of a [`BenchmarkConfig`].
pub struct ConfigView {
    /// The name of the run's own group, directly below the top of the tree.
    pub root_name: Seq<char>,
    /// The weight classes, in the order in which their threads are spawned.
    pub classes: Seq<WeightClassView>,
    /// The controllers handed down to the subgroups.
    pub controllers: Set<Controller>,
    /// The weight given to the run's own group among its siblings; none
    /// where it is left as it is created.
    pub root_weight: Option<u32>,
}

impl ConfigView {
    /// The run's own group.
    pub open spec fn root_node(self) -> NodePath {
        seq![self.root_name]
    }

    /// The subgroup of the class at `index`.
    pub open spec fn class_node(self, index: int) -> NodePath {
        seq![self.root_name, class_name(self.classes[index].label)]
    }

    /// What a run can be made of: names that can name a node, weights within
    /// the range, labels that differ from one another, the CPU controller
    /// among those delegated, and no more classes than a machine can count.
    pub open spec fn valid(self) -> bool {
        &&& valid_name(self.root_name)
        &&& self.classes.len() <= usize::MAX
        &&& self.root_weight matches Some(weight) ==> MIN_WEIGHT <= weight <= MAX_WEIGHT
        &&& self.controllers.contains(Controller::Cpu)
        &&& forall|i: int|
            0 <= i < self.classes.len() ==> valid_name(
                class_name((#[trigger] self.classes[i]).label),
            ) && self.classes[i].valid()
        &&& forall|i: int, j: int|
            0 <= i < j < self.classes.len() ==> (#[trigger] self.classes[i]).label != (
            #[trigger] self.classes[j]).label
    }
}

/// What a benchmark run is configured with: the name of its own group and one
/// weight class for each thread.
#[derive(Debug)]
pub struct BenchmarkConfig {
    root_name: String,
    classes: Vec<WeightClass>,
    controllers: ControllerSet,
    root_weight: Option<u32>,
    root: HierarchyNode,
    class_nodes: Vec<HierarchyNode>,
}

impl View for BenchmarkConfig {
    type V = ConfigView;

    closed spec fn view(&self) -> ConfigView {
        ConfigView {
            root_name: self.root_name@,
            classes: classes_view(self.classes@),
            controllers: self.controllers@,
            root_weight: self.root_weight,
        }
    }
}

impl BenchmarkConfig {
    /// What every configuration built by [`BenchmarkConfig::new`] satisfies:
    /// it is valid, and it knows the node of each of its groups.
    pub closed spec fn wf(&self) -> bool {
        &&& self@.valid()
        &&& self.root@ == self@.root_node()
        &&& self.class_nodes@.len() == self.classes@.len()
        &&& forall|i: int|
            0 <= i < self.class_nodes@.len() ==> (#[trigger] self.class_nodes@[i])@
                == self@.class_node(i)
    }

    /// A well-formed configuration is valid.
    pub proof fn wf_valid(&self)
        requires
            self.wf(),
        ensures
            self@.valid(),
    {
    }

    /// A configuration with the run's own group called `root_name`, left at
    /// the weight it is created with, and the given classes; the CPU-set
    /// controller is delegated beside the CPU controller where `with_cpuset`
    /// says so. A configuration that is not valid is refused as
    /// [`GatewayError::InvalidValue`].
    pub fn new(root_name: &str, classes: Vec<WeightClass>, with_cpuset: bool) -> (config: Result<
        Self,
        GatewayError,
    >)
        ensures
            match config {
                Ok(built) => built.wf() && built@ == (ConfigView {
                    root_name: root_name@,
                    classes: classes_view(classes@),
                    controllers: delegated_controllers(with_cpuset),
                    root_weight: None,
                }),
                Err(error) => error == GatewayError::InvalidValue && !(ConfigView {
                    root_name: root_name@,
                    classes: classes_view(classes@),
                    controllers: delegated_controllers(with_cpuset),
                    root_weight: None,
                }).valid(),
            },
    {
        let ghost wanted = ConfigView {
            root_name: root_name@,
            classes: classes_view(classes@),
            controllers: delegated_controllers(with_cpuset),
            root_weight: None,
        };
        let mut controllers = ControllerSet::empty().with(Controller::Cpu);
        if with_cpuset {
            controllers = controllers.with(Controller::Cpuset);
        }
        let top = HierarchyNode::root();
        let root = match top.child(root_name) {
            Some(node) => node,
            None => {
                return Err(GatewayError::InvalidValue);
            },
        };
        let mut class_nodes: Vec<HierarchyNode> = Vec::new();
        let count: usize = classes.len();
        let mut i: usize = 0;
        while i < count
            invariant
                count == classes@.len(),
                i <= classes@.len(),
                wanted == (ConfigView {
                    root_name: root_name@,
                    classes: classes_view(classes@),
                    controllers: delegated_controllers(with_cpuset),
                    root_weight: None,
                }),
                root@ == wanted.root_node(),
                class_nodes@.len() == i,
                forall|k: int|
                    0 <= k < i ==> (#[trigger] class_nodes@[k])@ == wanted.class_node(k),
                forall|k: int|
                    0 <= k < i ==> valid_name(class_name((#[trigger] wanted.classes[k]).label))
                        && wanted.classes[k].valid(),
                forall|a: int, b: int|
                    0 <= a < b < i ==> (#[trigger] wanted.classes[a]).label != (
                    #[trigger] wanted.classes[b]).label,
            decreases classes@.len() - i,
        {
            let class = &classes[i];
            assert(wanted.classes[i as int] == class@);
            if !class.is_valid() {
                return Err(GatewayError::InvalidValue);
            }
            let name = String::from_str("thread_").concat(class.label.as_str());
            let node = match root.child(name.as_str()) {
                Some(node) => node,
                None => {
                    return Err(GatewayError::InvalidValue);
                },
            };
            let mut j: usize = 0;
            while j < i
                invariant
                    j <= i < classes@.len(),
                    wanted == (ConfigView {
                        root_name: root_name@,
                        classes: classes_view(classes@),
                        controllers: delegated_controllers(with_cpuset),
                        root_weight: None,
                    }),
                    forall|a: int|
                        0 <= a < j ==> (#[trigger] wanted.classes[a]).label
                            != wanted.classes[i as int].label,
                decreases i - j,
            {
                if classes[j].label == classes[i].label {
                    assert(wanted.classes[j as int].label == wanted.classes[i as int].label);
                    return Err(GatewayError::InvalidValue);
                }
                j += 1;
            }
            class_nodes.push(node);
            i += 1;
        }
        let config = BenchmarkConfig {
            root_name: String::from_str(root_name),
            classes,
            controllers,
            root_weight: None,
            root,
            class_nodes,
        };
        Ok(config)
    }

    /// The run's own group.
    pub fn root(&self) -> (node: &HierarchyNode)
        requires
            self.wf(),
        ensures
            node@ == self@.root_node(),
    {
        &self.root
    }

    /// How many weight classes there are.
    pub fn class_count(&self) -> (count: usize)
        ensures
            count == self@.classes.len(),
    {
        self.classes.len()
    }

    /// The weight class at `index`.
    pub fn class(&self, index: usize) -> (class: &WeightClass)
        requires
            index < self@.classes.len(),
        ensures
            class@ == self@.classes[index as int],
    {
        &self.classes[index]
    }

    /// The subgroup of the class at `index`.
    pub fn class_node(&self, index: usize) -> (node: &HierarchyNode)
        requires
            self.wf(),
            index < self@.classes.len(),
        ensures
            node@ == self@.class_node(index as int),
    {
        &self.class_nodes[index]
    }

    /// The same configuration with `weight` given to the run's own group. A
    /// weight outside the accepted range is refused as
    /// [`GatewayError::InvalidValue`].
    pub fn with_root_weight(self, weight: u32) -> (config: Result<Self, GatewayError>)
        requires
            self.wf(),
        ensures
            match config {
                Ok(built) => MIN_WEIGHT <= weight <= MAX_WEIGHT && built.wf() && built@
                    == (ConfigView { root_weight: Some(weight), ..self@ }),
                Err(error) => error == GatewayError::InvalidValue && !(MIN_WEIGHT <= weight
                    <= MAX_WEIGHT),
            },
    {
        if weight < MIN_WEIGHT || weight > MAX_WEIGHT {
            return Err(GatewayError::InvalidValue);
        }
        Ok(
            BenchmarkConfig {
                root_name: self.root_name,
                classes: self.classes,
                controllers: self.controllers,
                root_weight: Some(weight),
                root: self.root,
                class_nodes: self.class_nodes,
            },
        )
    }

    /// The weight given to the run's own group.
    pub fn root_weight(&self) -> (weight: Option<u32>)
        ensures
            weight == self@.root_weight,
    {
        self.root_weight
    }

    /// The controllers handed down to the subgroups.
    pub fn controllers(&self) -> (set: ControllerSet)
        ensures
            set@ == self@.controllers,
    {
        self.controllers
    }
}

} // verus!
