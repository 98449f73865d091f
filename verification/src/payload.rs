use vstd::prelude::*;

verus! {

/// The kind of payload a message carries.
#[derive(Debug, Clone, Copy, PartialEq, Eq, Structural)]
pub enum PayloadType {
    Wasm,
    Component,
    Json,
}

impl PayloadType {
    /// The name under which the payload type is displayed.
    pub open spec fn spec_name(self) -> Seq<char> {
        match self {
            PayloadType::Wasm => seq!['W', 'a', 's', 'm'],
            PayloadType::Component => seq!['C', 'o', 'm', 'p', 'o', 'n', 'e', 'n', 't'],
            PayloadType::Json => seq!['J', 's', 'o', 'n'],
        }
    }

    /// Renders the payload type as its display name.
    pub fn to_string(&self) -> (name: String)
        ensures
            name@ == self.spec_name(),
    {
        match self {
            PayloadType::Wasm => {
                let s = String::from_str("Wasm");
                proof {
                    reveal_strlit("Wasm");
                }
                s
            },
            PayloadType::Component => {
                let s = String::from_str("Component");
                proof {
                    reveal_strlit("Component");
                }
                s
            },
            PayloadType::Json => {
                let s = String::from_str("Json");
                proof {
                    reveal_strlit("Json");
                }
                s
            },
        }
    }
}

/// Distinct payload types are displayed under distinct names.
pub proof fn lemma_payload_type_names_distinct(a: PayloadType, b: PayloadType)
    ensures
        a.spec_name() == b.spec_name() ==> a == b,
{
    if a != b {
        assert(a.spec_name()[0] != b.spec_name()[0]);
    }
}

/// The query that a message's payload is meant for.
#[derive(Debug, Clone, Copy, PartialEq, Eq, Structural)]
pub enum PayloadQueue {
    Q1,
    Q2,
    Q3,
    Q4,
    Q5,
    Q6,
    Q7,
    Q8,
}

impl PayloadQueue {
    /// The number of the query: `Q1` is 1, and each next query one more.
    pub open spec fn spec_number(self) -> u8 {
        match self {
            PayloadQueue::Q1 => 1,
            PayloadQueue::Q2 => 2,
            PayloadQueue::Q3 => 3,
            PayloadQueue::Q4 => 4,
            PayloadQueue::Q5 => 5,
            PayloadQueue::Q6 => 6,
            PayloadQueue::Q7 => 7,
            PayloadQueue::Q8 => 8,
        }
    }

    /// The number of the query, from 1 for `Q1` to 8 for `Q8`.
    pub fn number(&self) -> (n: u8)
        ensures
            n == self.spec_number(),
            1 <= n <= 8,
    {
        match self {
            PayloadQueue::Q1 => 1,
            PayloadQueue::Q2 => 2,
            PayloadQueue::Q3 => 3,
            PayloadQueue::Q4 => 4,
            PayloadQueue::Q5 => 5,
            PayloadQueue::Q6 => 6,
            PayloadQueue::Q7 => 7,
            PayloadQueue::Q8 => 8,
        }
    }
}

/// Distinct queries have distinct numbers.
pub proof fn lemma_payload_queue_numbers_distinct(a: PayloadQueue, b: PayloadQueue)
    ensures
        a.spec_number() == b.spec_number() ==> a == b,
{
}

/// Each payload type is displayed as the name of its variant.
pub proof fn lemma_payload_type_names()
    ensures
        PayloadType::Wasm.spec_name() == "Wasm"@,
        PayloadType::Component.spec_name() == "Component"@,
        PayloadType::Json.spec_name() == "Json"@,
{
    reveal_strlit("Wasm");
    reveal_strlit("Component");
    reveal_strlit("Json");
    assert(PayloadType::Wasm.spec_name() =~= "Wasm"@);
    assert(PayloadType::Component.spec_name() =~= "Component"@);
    assert(PayloadType::Json.spec_name() =~= "Json"@);
}

/// Queries are numbered in the order they are declared, from 1.
pub proof fn lemma_payload_queue_numbers_in_order()
    ensures
        PayloadQueue::Q1.spec_number() == 1,
        PayloadQueue::Q2.spec_number() == 2,
        PayloadQueue::Q3.spec_number() == 3,
        PayloadQueue::Q4.spec_number() == 4,
        PayloadQueue::Q5.spec_number() == 5,
        PayloadQueue::Q6.spec_number() == 6,
        PayloadQueue::Q7.spec_number() == 7,
        PayloadQueue::Q8.spec_number() == 8,
{
}

} // verus!
