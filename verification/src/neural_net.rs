//! The neuron taxonomy: the closed catalog of sensors and actuators, the configured
//! number of hidden neurons, and the identifiers handed out for them.

use crate::random::RandomSource;
use vstd::prelude::*;

verus! {

/// Number of sensor kinds.
pub const INPUT_NEURON_COUNT: usize = 16;

/// Number of actuator kinds.
pub const OUTPUT_NEURON_COUNT: usize = 4;

/// Identifier of the first sensor neuron.
pub const INPUT_ID_BASE: usize = 100;

/// Identifier of the first hidden neuron.
pub const INNER_ID_BASE: usize = 200;

/// Identifier of the first actuator neuron while the hidden neurons end below it.
pub const OUTPUT_ID_BASE: usize = 300;

/// The largest number of hidden neurons whose identifiers, and those of the actuators
/// after them, still fit the machine's word.
pub const MAX_INNER_NEURONS: usize = usize::MAX - 304;

/// The class of a neuron.
#[derive(Debug, Clone, Copy, PartialEq, Eq, Structural)]
pub enum NeuronType {
    InputNeuron,
    InnerNeuron,
    OutputNeuron,
}

/// The sensor kinds, in catalog order.
#[derive(Debug, Clone, Copy, PartialEq, Eq, Structural)]
pub enum InputNeuronType {
    DirectionToFood,
    DistanceToFood,
    DirectionToDanger,
    DistanceToDanger,
    DirectionToHealthiestLF,
    DistanceToHealthiestLF,
    HealthiestLFHealth,
    DirectionToClosestLF,
    DistanceToClosestLF,
    ClosestLFHealth,
    Health,
    Hunger,
    PopulationDensity,
    NeighborhoodDensity,
    Random,
    Oscillator,
}

/// The actuator kinds, in catalog order.
#[derive(Debug, Clone, Copy, PartialEq, Eq, Structural)]
pub enum OutputNeuronType {
    TurnLeft,
    TurnRight,
    MoveForward,
    Attack,
}

/// A sensor neuron and its current reading.
#[derive(Debug, Clone, Copy, PartialEq, Eq, Structural)]
pub struct InputNeuron {
    pub id: usize,
    pub value: i32,
}

/// An actuator neuron and its current activation.
#[derive(Debug, Clone, Copy, PartialEq, Eq, Structural)]
pub struct OutputNeuron {
    pub id: usize,
    pub value: i32,
}

/// A hidden neuron and the activation it reached on the latest evaluation.
#[derive(Debug, Clone, Copy, PartialEq, Eq, Structural)]
pub struct InnerNeuron {
    pub id: usize,
    pub value: i32,
}

impl Default for InputNeuron {
    fn default() -> (neuron: InputNeuron)
        ensures
            neuron == (InputNeuron { id: 0, value: 0 }),
    {
        InputNeuron { id: 0, value: 0 }
    }
}

impl Default for OutputNeuron {
    fn default() -> (neuron: OutputNeuron)
        ensures
            neuron == (OutputNeuron { id: 0, value: 0 }),
    {
        OutputNeuron { id: 0, value: 0 }
    }
}

impl InputNeuronType {
    /// The position of a sensor kind in the catalog.
    pub open spec fn index(self) -> int {
        match self {
            InputNeuronType::DirectionToFood => 0,
            InputNeuronType::DistanceToFood => 1,
            InputNeuronType::DirectionToDanger => 2,
            InputNeuronType::DistanceToDanger => 3,
            InputNeuronType::DirectionToHealthiestLF => 4,
            InputNeuronType::DistanceToHealthiestLF => 5,
            InputNeuronType::HealthiestLFHealth => 6,
            InputNeuronType::DirectionToClosestLF => 7,
            InputNeuronType::DistanceToClosestLF => 8,
            InputNeuronType::ClosestLFHealth => 9,
            InputNeuronType::Health => 10,
            InputNeuronType::Hunger => 11,
            InputNeuronType::PopulationDensity => 12,
            InputNeuronType::NeighborhoodDensity => 13,
            InputNeuronType::Random => 14,
            InputNeuronType::Oscillator => 15,
        }
    }

    /// The position of this sensor kind in the catalog.
    pub fn ordinal(&self) -> (i: usize)
        ensures
            i == self.index(),
            i < INPUT_NEURON_COUNT,
    {
        match self {
            InputNeuronType::DirectionToFood => 0,
            InputNeuronType::DistanceToFood => 1,
            InputNeuronType::DirectionToDanger => 2,
            InputNeuronType::DistanceToDanger => 3,
            InputNeuronType::DirectionToHealthiestLF => 4,
            InputNeuronType::DistanceToHealthiestLF => 5,
            InputNeuronType::HealthiestLFHealth => 6,
            InputNeuronType::DirectionToClosestLF => 7,
            InputNeuronType::DistanceToClosestLF => 8,
            InputNeuronType::ClosestLFHealth => 9,
            InputNeuronType::Health => 10,
            InputNeuronType::Hunger => 11,
            InputNeuronType::PopulationDensity => 12,
            InputNeuronType::NeighborhoodDensity => 13,
            InputNeuronType::Random => 14,
            InputNeuronType::Oscillator => 15,
        }
    }

    /// The name of a sensor kind, as it is displayed.
    pub open spec fn label(self) -> Seq<char> {
        match self {
            InputNeuronType::DirectionToFood => "DirectionToFood"@,
            InputNeuronType::DistanceToFood => "DistanceToFood"@,
            InputNeuronType::DirectionToDanger => "DirectionToDanger"@,
            InputNeuronType::DistanceToDanger => "DistanceToDanger"@,
            InputNeuronType::DirectionToHealthiestLF => "DirectionToHealthiestLF"@,
            InputNeuronType::DistanceToHealthiestLF => "DistanceToHealthiestLF"@,
            InputNeuronType::HealthiestLFHealth => "HealthiestLFHealth"@,
            InputNeuronType::DirectionToClosestLF => "DirectionToClosestLF"@,
            InputNeuronType::DistanceToClosestLF => "DistanceToClosestLF"@,
            InputNeuronType::ClosestLFHealth => "ClosestLFHealth"@,
            InputNeuronType::Health => "Health"@,
            InputNeuronType::Hunger => "Hunger"@,
            InputNeuronType::PopulationDensity => "PopulationDensity"@,
            InputNeuronType::NeighborhoodDensity => "NeighborhoodDensity"@,
            InputNeuronType::Random => "Random"@,
            InputNeuronType::Oscillator => "Oscillator"@,
        }
    }

    /// The name of this sensor kind, as it is displayed.
    pub fn name(&self) -> (text: &'static str)
        ensures
            text@ == self.label(),
    {
        match self {
            InputNeuronType::DirectionToFood => "DirectionToFood",
            InputNeuronType::DistanceToFood => "DistanceToFood",
            InputNeuronType::DirectionToDanger => "DirectionToDanger",
            InputNeuronType::DistanceToDanger => "DistanceToDanger",
            InputNeuronType::DirectionToHealthiestLF => "DirectionToHealthiestLF",
            InputNeuronType::DistanceToHealthiestLF => "DistanceToHealthiestLF",
            InputNeuronType::HealthiestLFHealth => "HealthiestLFHealth",
            InputNeuronType::DirectionToClosestLF => "DirectionToClosestLF",
            InputNeuronType::DistanceToClosestLF => "DistanceToClosestLF",
            InputNeuronType::ClosestLFHealth => "ClosestLFHealth",
            InputNeuronType::Health => "Health",
            InputNeuronType::Hunger => "Hunger",
            InputNeuronType::PopulationDensity => "PopulationDensity",
            InputNeuronType::NeighborhoodDensity => "NeighborhoodDensity",
            InputNeuronType::Random => "Random",
            InputNeuronType::Oscillator => "Oscillator",
        }
    }

    /// The sensor kind at a catalog position, if the position is in the catalog.
    pub fn from_ordinal(i: usize) -> (kind: Option<InputNeuronType>)
        ensures
            i < INPUT_NEURON_COUNT <==> kind.is_some(),
            kind.is_some() ==> kind.unwrap().index() == i,
    {
        match i {
            0 => Some(InputNeuronType::DirectionToFood),
            1 => Some(InputNeuronType::DistanceToFood),
            2 => Some(InputNeuronType::DirectionToDanger),
            3 => Some(InputNeuronType::DistanceToDanger),
            4 => Some(InputNeuronType::DirectionToHealthiestLF),
            5 => Some(InputNeuronType::DistanceToHealthiestLF),
            6 => Some(InputNeuronType::HealthiestLFHealth),
            7 => Some(InputNeuronType::DirectionToClosestLF),
            8 => Some(InputNeuronType::DistanceToClosestLF),
            9 => Some(InputNeuronType::ClosestLFHealth),
            10 => Some(InputNeuronType::Health),
            11 => Some(InputNeuronType::Hunger),
            12 => Some(InputNeuronType::PopulationDensity),
            13 => Some(InputNeuronType::NeighborhoodDensity),
            14 => Some(InputNeuronType::Random),
            15 => Some(InputNeuronType::Oscillator),
            _ => None,
        }
    }
}

impl OutputNeuronType {
    /// The position of an actuator kind in the catalog.
    pub open spec fn index(self) -> int {
        match self {
            OutputNeuronType::TurnLeft => 0,
            OutputNeuronType::TurnRight => 1,
            OutputNeuronType::MoveForward => 2,
            OutputNeuronType::Attack => 3,
        }
    }

    /// The position of this actuator kind in the catalog.
    pub fn ordinal(&self) -> (i: usize)
        ensures
            i == self.index(),
            i < OUTPUT_NEURON_COUNT,
    {
        match self {
            OutputNeuronType::TurnLeft => 0,
            OutputNeuronType::TurnRight => 1,
            OutputNeuronType::MoveForward => 2,
            OutputNeuronType::Attack => 3,
        }
    }

    /// The name of a actuator kind, as it is displayed.
    pub open spec fn label(self) -> Seq<char> {
        match self {
            OutputNeuronType::TurnLeft => "TurnLeft"@,
            OutputNeuronType::TurnRight => "TurnRight"@,
            OutputNeuronType::MoveForward => "MoveForward"@,
            OutputNeuronType::Attack => "Attack"@,
        }
    }

    /// The name of this actuator kind, as it is displayed.
    pub fn name(&self) -> (text: &'static str)
        ensures
            text@ == self.label(),
    {
        match self {
            OutputNeuronType::TurnLeft => "TurnLeft",
            OutputNeuronType::TurnRight => "TurnRight",
            OutputNeuronType::MoveForward => "MoveForward",
            OutputNeuronType::Attack => "Attack",
        }
    }

    /// The actuator kind at a catalog position, if the position is in the catalog.
    pub fn from_ordinal(i: usize) -> (kind: Option<OutputNeuronType>)
        ensures
            i < OUTPUT_NEURON_COUNT <==> kind.is_some(),
            kind.is_some() ==> kind.unwrap().index() == i,
    {
        match i {
            0 => Some(OutputNeuronType::TurnLeft),
            1 => Some(OutputNeuronType::TurnRight),
            2 => Some(OutputNeuronType::MoveForward),
            3 => Some(OutputNeuronType::Attack),
            _ => None,
        }
    }
}

/// Identifier of the first actuator neuron in a taxonomy of `inner` hidden neurons. It
/// is `OUTPUT_ID_BASE` unless the hidden neurons reach that far; then the actuators
/// follow the last hidden neuron, so that no identifier serves two classes.
pub open spec fn output_base(inner: nat) -> nat {
    if inner <= 100 {
        OUTPUT_ID_BASE as nat
    } else {
        INNER_ID_BASE as nat + inner
    }
}

/// Whether `id` names a sensor neuron.
pub open spec fn is_input_id(id: usize) -> bool {
    INPUT_ID_BASE <= id < INPUT_ID_BASE + INPUT_NEURON_COUNT
}

/// Whether `id` names a hidden neuron of a taxonomy of `inner` hidden neurons.
pub open spec fn is_inner_id(inner: nat, id: usize) -> bool {
    INNER_ID_BASE <= id < INNER_ID_BASE + inner
}

/// Whether `id` names an actuator neuron of a taxonomy of `inner` hidden neurons.
pub open spec fn is_output_id(inner: nat, id: usize) -> bool {
    output_base(inner) <= id < output_base(inner) + OUTPUT_NEURON_COUNT
}

/// Whether a gene may start at `id`: sensors and hidden neurons.
pub open spec fn is_source_id(inner: nat, id: usize) -> bool {
    is_input_id(id) || is_inner_id(inner, id)
}

/// Whether a gene may end at `id`: hidden neurons and actuators.
pub open spec fn is_sink_id(inner: nat, id: usize) -> bool {
    is_inner_id(inner, id) || is_output_id(inner, id)
}

/// The class of the neuron that `id` names. Meaningful where `id` names a neuron.
pub open spec fn class_of(inner: nat, id: usize) -> NeuronType {
    if is_input_id(id) {
        NeuronType::InputNeuron
    } else if is_inner_id(inner, id) {
        NeuronType::InnerNeuron
    } else {
        NeuronType::OutputNeuron
    }
}

/// The `position`-th identifier among those a gene may start at: the sensors in catalog
/// order, then the hidden neurons.
pub open spec fn source_id_at(position: int) -> int {
    if position < INPUT_NEURON_COUNT {
        INPUT_ID_BASE + position
    } else {
        INNER_ID_BASE + (position - INPUT_NEURON_COUNT)
    }
}

/// The `position`-th identifier among those a gene may end at: the hidden neurons, then
/// the actuators in catalog order.
pub open spec fn sink_id_at(inner: nat, position: int) -> int {
    if position < inner {
        INNER_ID_BASE + position
    } else {
        output_base(inner) + (position - inner)
    }
}

/// Whether three neuron tables are laid out as a taxonomy lays them out: every sensor
/// and actuator kind once, in catalog order, and each neuron under its identifier.
pub open spec fn layout_ok(
    inputs: Seq<(InputNeuronType, InputNeuron)>,
    inners: Seq<InnerNeuron>,
    outputs: Seq<(OutputNeuronType, OutputNeuron)>,
) -> bool {
    &&& inputs.len() == INPUT_NEURON_COUNT
    &&& outputs.len() == OUTPUT_NEURON_COUNT
    &&& inners.len() <= MAX_INNER_NEURONS
    &&& forall|i: int|
        0 <= i < inputs.len() ==> (#[trigger] inputs[i]).0.index() == i && inputs[i].1.id
            == INPUT_ID_BASE + i
    &&& forall|i: int| 0 <= i < inners.len() ==> (#[trigger] inners[i]).id == INNER_ID_BASE + i
    &&& forall|i: int|
        0 <= i < outputs.len() ==> (#[trigger] outputs[i]).0.index() == i && outputs[i].1.id
            == output_base(inners.len()) + i
}

/// The neuron taxonomy. Built once, never changed, and shared by every network.
#[derive(Debug)]
pub struct NeuralNetHelper {
    pub input_neurons: Vec<(InputNeuronType, InputNeuron)>,
    pub inner_neurons: Vec<InnerNeuron>,
    pub output_neurons: Vec<(OutputNeuronType, OutputNeuron)>,
}

/// One agent's network: the taxonomy's neurons with their working values.
#[derive(Debug, Clone)]
pub struct NeuralNet {
    pub input_neurons: Vec<(InputNeuronType, InputNeuron)>,
    pub inner_neurons: Vec<InnerNeuron>,
    pub output_neurons: Vec<(OutputNeuronType, OutputNeuron)>,
}

impl NeuralNet {
    /// Number of hidden neurons.
    pub open spec fn inner_count(&self) -> nat {
        self.inner_neurons@.len()
    }

    /// The network is laid out as a taxonomy, and every value is in `[-1.0, 1.0]`.
    pub open spec fn wf(&self) -> bool {
        &&& layout_ok(self.input_neurons@, self.inner_neurons@, self.output_neurons@)
        &&& forall|i: int|
            0 <= i < self.input_neurons@.len() ==> crate::fixed::in_signed_unit(
                (#[trigger] self.input_neurons@[i]).1.value as int,
            )
        &&& forall|i: int|
            0 <= i < self.inner_neurons@.len() ==> crate::fixed::in_signed_unit(
                (#[trigger] self.inner_neurons@[i]).value as int,
            )
        &&& forall|i: int|
            0 <= i < self.output_neurons@.len() ==> crate::fixed::in_signed_unit(
                (#[trigger] self.output_neurons@[i]).1.value as int,
            )
    }

    /// Every value of the network is zero.
    pub open spec fn is_blank(&self) -> bool {
        &&& forall|i: int|
            0 <= i < self.input_neurons@.len() ==> (#[trigger] self.input_neurons@[i]).1.value
                == 0
        &&& forall|i: int|
            0 <= i < self.inner_neurons@.len() ==> (#[trigger] self.inner_neurons@[i]).value == 0
        &&& forall|i: int|
            0 <= i < self.output_neurons@.len() ==> (#[trigger] self.output_neurons@[i]).1.value
                == 0
    }

    /// The sensor readings, in catalog order.
    pub open spec fn input_values(&self) -> Seq<int> {
        Seq::new(self.input_neurons@.len(), |i: int| self.input_neurons@[i].1.value as int)
    }

    /// The hidden neurons' values, in order.
    pub open spec fn inner_values(&self) -> Seq<int> {
        Seq::new(self.inner_neurons@.len(), |i: int| self.inner_neurons@[i].value as int)
    }

    /// The actuators' activations, in catalog order.
    pub open spec fn output_values(&self) -> Seq<int> {
        Seq::new(self.output_neurons@.len(), |i: int| self.output_neurons@[i].1.value as int)
    }
}

impl NeuralNetHelper {
    /// Number of hidden neurons.
    pub open spec fn inner_count(&self) -> nat {
        self.inner_neurons@.len()
    }

    /// The taxonomy is laid out by the identifier scheme and holds only zero values.
    pub open spec fn wf(&self) -> bool {
        &&& layout_ok(self.input_neurons@, self.inner_neurons@, self.output_neurons@)
        &&& forall|i: int|
            0 <= i < self.input_neurons@.len() ==> (#[trigger] self.input_neurons@[i]).1.value
                == 0
        &&& forall|i: int|
            0 <= i < self.inner_neurons@.len() ==> (#[trigger] self.inner_neurons@[i]).value == 0
        &&& forall|i: int|
            0 <= i < self.output_neurons@.len() ==> (#[trigger] self.output_neurons@[i]).1.value
                == 0
    }

    /// Whether `id` names a neuron of this taxonomy.
    pub open spec fn has_neuron(&self, id: usize) -> bool {
        is_input_id(id) || is_inner_id(self.inner_count(), id) || is_output_id(
            self.inner_count(),
            id,
        )
    }

    /// Builds the taxonomy: every sensor kind, `num_inner_neurons` hidden neurons and
    /// every actuator kind, each under an identifier of its own.
    pub fn new(num_inner_neurons: usize) -> (helper: NeuralNetHelper)
        requires
            num_inner_neurons <= MAX_INNER_NEURONS,
        ensures
            helper.wf(),
            helper.inner_count() == num_inner_neurons,
    {
        let mut input_neurons: Vec<(InputNeuronType, InputNeuron)> = Vec::new();
        let mut inner_neurons: Vec<InnerNeuron> = Vec::new();
        let mut output_neurons: Vec<(OutputNeuronType, OutputNeuron)> = Vec::new();

        let mut idx: usize = 0;
        while idx < INPUT_NEURON_COUNT
            invariant
                idx <= INPUT_NEURON_COUNT,
                input_neurons@.len() == idx,
                forall|i: int|
                    0 <= i < idx ==> (#[trigger] input_neurons@[i]).0.index() == i
                        && input_neurons@[i].1 == (InputNeuron {
                        id: (INPUT_ID_BASE + i) as usize,
                        value: 0,
                    }),
            decreases INPUT_NEURON_COUNT - idx,
        {
            match InputNeuronType::from_ordinal(idx) {
                Some(kind) => {
                    input_neurons.push((kind, InputNeuron { id: INPUT_ID_BASE + idx, value: 0 }));
                },
                None => {},
            }
            idx += 1;
        }

        let mut idx: usize = 0;
        while idx < num_inner_neurons
            invariant
                idx <= num_inner_neurons <= MAX_INNER_NEURONS,
                inner_neurons@.len() == idx,
                forall|i: int|
                    0 <= i < idx ==> (#[trigger] inner_neurons@[i]) == (InnerNeuron {
                        id: (INNER_ID_BASE + i) as usize,
                        value: 0,
                    }),
            decreases num_inner_neurons - idx,
        {
            inner_neurons.push(InnerNeuron { id: INNER_ID_BASE + idx, value: 0 });
            idx += 1;
        }

        let base: usize = if num_inner_neurons <= 100 {
            OUTPUT_ID_BASE
        } else {
            INNER_ID_BASE + num_inner_neurons
        };
        let mut idx: usize = 0;
        while idx < OUTPUT_NEURON_COUNT
            invariant
                idx <= OUTPUT_NEURON_COUNT,
                num_inner_neurons <= MAX_INNER_NEURONS,
                base == output_base(num_inner_neurons as nat),
                output_neurons@.len() == idx,
                forall|i: int|
                    0 <= i < idx ==> (#[trigger] output_neurons@[i]).0.index() == i
                        && output_neurons@[i].1 == (OutputNeuron {
                        id: (base + i) as usize,
                        value: 0,
                    }),
            decreases OUTPUT_NEURON_COUNT - idx,
        {
            match OutputNeuronType::from_ordinal(idx) {
                Some(kind) => {
                    output_neurons.push((kind, OutputNeuron { id: base + idx, value: 0 }));
                },
                None => {},
            }
            idx += 1;
        }

        NeuralNetHelper { input_neurons, inner_neurons, output_neurons }
    }

    /// A fresh network for one agent: the taxonomy's neurons, every value zero. The
    /// network shares nothing with the taxonomy or with other networks.
    pub fn spawn(&self) -> (net: NeuralNet)
        requires
            self.wf(),
        ensures
            net.wf(),
            net.is_blank(),
            net.input_neurons@ == self.input_neurons@,
            net.inner_neurons@ == self.inner_neurons@,
            net.output_neurons@ == self.output_neurons@,
    {
        let mut input_neurons: Vec<(InputNeuronType, InputNeuron)> = Vec::new();
        let mut inner_neurons: Vec<InnerNeuron> = Vec::new();
        let mut output_neurons: Vec<(OutputNeuronType, OutputNeuron)> = Vec::new();

        let mut idx: usize = 0;
        while idx < self.input_neurons.len()
            invariant
                idx <= self.input_neurons@.len(),
                input_neurons@ == self.input_neurons@.take(idx as int),
            decreases self.input_neurons@.len() - idx,
        {
            input_neurons.push(self.input_neurons[idx]);
            assert(input_neurons@ =~= self.input_neurons@.take(idx + 1));
            idx += 1;
        }
        assert(input_neurons@ =~= self.input_neurons@);

        let mut idx: usize = 0;
        while idx < self.inner_neurons.len()
            invariant
                idx <= self.inner_neurons@.len(),
                inner_neurons@ == self.inner_neurons@.take(idx as int),
            decreases self.inner_neurons@.len() - idx,
        {
            inner_neurons.push(self.inner_neurons[idx]);
            assert(inner_neurons@ =~= self.inner_neurons@.take(idx + 1));
            idx += 1;
        }
        assert(inner_neurons@ =~= self.inner_neurons@);

        let mut idx: usize = 0;
        while idx < self.output_neurons.len()
            invariant
                idx <= self.output_neurons@.len(),
                output_neurons@ == self.output_neurons@.take(idx as int),
            decreases self.output_neurons@.len() - idx,
        {
            output_neurons.push(self.output_neurons[idx]);
            assert(output_neurons@ =~= self.output_neurons@.take(idx + 1));
            idx += 1;
        }
        assert(output_neurons@ =~= self.output_neurons@);

        NeuralNet { input_neurons, inner_neurons, output_neurons }
    }

    /// Number of identifiers a gene may start at.
    pub fn source_count(&self) -> (n: usize)
        requires
            self.wf(),
        ensures
            n == INPUT_NEURON_COUNT + self.inner_count(),
            n > 0,
    {
        self.input_neurons.len() + self.inner_neurons.len()
    }

    /// Number of identifiers a gene may end at.
    pub fn sink_count(&self) -> (n: usize)
        requires
            self.wf(),
        ensures
            n == self.inner_count() + OUTPUT_NEURON_COUNT,
            n > 0,
    {
        self.inner_neurons.len() + self.output_neurons.len()
    }

    /// The identifier at `position` among those a gene may start at.
    pub fn from_neuron_at(&self, position: usize) -> (id: usize)
        requires
            self.wf(),
            position < INPUT_NEURON_COUNT + self.inner_count(),
        ensures
            id == source_id_at(position as int),
            is_source_id(self.inner_count(), id),
    {
        if position < self.input_neurons.len() {
            self.input_neurons[position].1.id
        } else {
            let index = position - self.input_neurons.len();
            self.inner_neurons[index].id
        }
    }

    /// The identifier at `position` among those a gene may end at.
    pub fn to_neuron_at(&self, position: usize) -> (id: usize)
        requires
            self.wf(),
            position < self.inner_count() + OUTPUT_NEURON_COUNT,
        ensures
            id == sink_id_at(self.inner_count(), position as int),
            is_sink_id(self.inner_count(), id),
    {
        if position < self.inner_neurons.len() {
            self.inner_neurons[position].id
        } else {
            let index = position - self.inner_neurons.len();
            self.output_neurons[index].1.id
        }
    }

    /// Whether a gene may start at `id`.
    pub fn is_source(&self, id: usize) -> (legal: bool)
        requires
            self.wf(),
        ensures
            legal == is_source_id(self.inner_count(), id),
    {
        (INPUT_ID_BASE <= id && id - INPUT_ID_BASE < self.input_neurons.len()) || (INNER_ID_BASE
            <= id && id - INNER_ID_BASE < self.inner_neurons.len())
    }

    /// Whether a gene may end at `id`.
    pub fn is_sink(&self, id: usize) -> (legal: bool)
        requires
            self.wf(),
        ensures
            legal == is_sink_id(self.inner_count(), id),
    {
        let base = self.output_neurons[0].1.id;
        (INNER_ID_BASE <= id && id - INNER_ID_BASE < self.inner_neurons.len()) || (base <= id
            && id - base < self.output_neurons.len())
    }

    /// The identifier of a neuron drawn from the sensors and the hidden neurons: every
    /// place a gene may start at. One draw is made, and the taxonomy is as it was.
    pub fn random_from_neuron(&self, rng: &mut RandomSource) -> (id: usize)
        requires
            self.wf(),
        ensures
            is_source_id(self.inner_count(), id),
            final(rng).drawn() == old(rng).drawn() + 1,
    {
        let num_neurons = self.source_count();
        let idx = rng.below(num_neurons);
        self.from_neuron_at(idx)
    }

    /// The identifier of a neuron drawn from the hidden neurons and the actuators:
    /// every place a gene may end at. One draw is made, and the taxonomy is as it was.
    pub fn random_to_neuron(&self, rng: &mut RandomSource) -> (id: usize)
        requires
            self.wf(),
        ensures
            is_sink_id(self.inner_count(), id),
            final(rng).drawn() == old(rng).drawn() + 1,
    {
        let num_neurons = self.sink_count();
        let idx = rng.below(num_neurons);
        self.to_neuron_at(idx)
    }

    /// The class of the neuron that `neuron_id` names.
    pub fn neuron_type(&self, neuron_id: &usize) -> (class: &NeuronType)
        requires
            self.wf(),
            self.has_neuron(*neuron_id),
        ensures
            *class == class_of(self.inner_count(), *neuron_id),
            *class == NeuronType::InputNeuron <==> is_input_id(*neuron_id),
            *class == NeuronType::InnerNeuron <==> is_inner_id(self.inner_count(), *neuron_id),
            *class == NeuronType::OutputNeuron <==> is_output_id(self.inner_count(), *neuron_id),
    {
        let id = *neuron_id;
        if INPUT_ID_BASE <= id && id - INPUT_ID_BASE < self.input_neurons.len() {
            &NeuronType::InputNeuron
        } else if INNER_ID_BASE <= id && id - INNER_ID_BASE < self.inner_neurons.len() {
            &NeuronType::InnerNeuron
        } else {
            &NeuronType::OutputNeuron
        }
    }
}

/// No identifier serves two classes: the three classes of a taxonomy are disjoint.
pub proof fn lemma_classes_disjoint(inner: nat, id: usize)
    ensures
        !(is_input_id(id) && is_inner_id(inner, id)),
        !(is_input_id(id) && is_output_id(inner, id)),
        !(is_inner_id(inner, id) && is_output_id(inner, id)),
{
}

/// Every identifier a gene may start at is handed out at some position, and every
/// identifier a gene may end at likewise.
pub proof fn lemma_every_endpoint_reachable(inner: nat, id: usize)
    ensures
        is_source_id(inner, id) ==> exists|p: int|
            0 <= p < INPUT_NEURON_COUNT + inner && #[trigger] source_id_at(p) == id,
        is_sink_id(inner, id) ==> exists|p: int|
            0 <= p < inner + OUTPUT_NEURON_COUNT && #[trigger] sink_id_at(inner, p) == id,
{
    if is_input_id(id) {
        assert(source_id_at(id - INPUT_ID_BASE) == id);
    } else if is_inner_id(inner, id) {
        assert(source_id_at(id - INNER_ID_BASE + INPUT_NEURON_COUNT) == id);
    }
    if is_inner_id(inner, id) {
        assert(sink_id_at(inner, id - INNER_ID_BASE) == id);
    } else if is_output_id(inner, id) {
        assert(sink_id_at(inner, id - output_base(inner) + inner) == id);
    }
}

} // verus!
