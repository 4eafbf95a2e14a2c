//! Integer-coded enumerations of the wire format. Each keeps unknown codes
//! for forward compatibility.
use vstd::prelude::*;

verus! {

/// Operation type for wire field `t`.
#[derive(Clone, Copy, Debug, PartialEq, Eq, Structural)]
pub enum OperationType {
    /// Full snapshot/create (replace current object state for UUID).
    Create,
    /// Partial update (merge `p` into existing properties).
    Update,
    /// Deletion event.
    Delete,
    /// Unknown operation value preserved for forward compatibility.
    Unknown(i32),
}

/// Task kind used in `tp`.
#[derive(Clone, Copy, Debug, PartialEq, Eq, Structural)]
pub enum TaskType {
    /// Regular leaf task.
    Todo,
    /// Project container.
    Project,
    /// Heading/section under a project.
    Heading,
    /// Unknown value preserved for forward compatibility.
    Unknown(i32),
}

/// Task status used in `ss`.
#[derive(Clone, Copy, Debug, PartialEq, Eq, Structural)]
pub enum TaskStatus {
    /// Open/incomplete.
    Incomplete,
    /// Canceled.
    Canceled,
    /// Completed.
    Completed,
    /// Unknown value preserved for forward compatibility.
    Unknown(i32),
}

/// Start location used in `st`.
#[derive(Clone, Copy, Debug, PartialEq, Eq, Structural)]
pub enum TaskStart {
    /// Inbox list.
    Inbox,
    /// Anytime list.
    Anytime,
    /// Someday list.
    Someday,
    /// Unknown value preserved for forward compatibility.
    Unknown(i32),
}

/// Recurrence mode (`rr.tp`).
#[derive(Clone, Copy, Debug, PartialEq, Eq, Structural)]
pub enum RecurrenceType {
    /// Fixed schedule cadence.
    FixedSchedule,
    /// Interval anchored after completion date.
    AfterCompletion,
    /// Unknown value preserved for forward compatibility.
    Unknown(i32),
}

/// Recurrence frequency unit (`rr.fu`).
#[derive(Clone, Copy, Debug, PartialEq, Eq, Structural)]
pub enum FrequencyUnit {
    /// Daily bitmask value `8`.
    Daily,
    /// Monthly bitmask value `16`.
    Monthly,
    /// Weekly bitmask value `256`.
    Weekly,
    /// Unknown value preserved for forward compatibility.
    Unknown(i32),
}

// ---- OperationType ----
/// Wire code of an operation type.
pub open spec fn operation_code(op: OperationType) -> i32 {
    match op {
        OperationType::Create => 0,
        OperationType::Update => 1,
        OperationType::Delete => 2,
        OperationType::Unknown(v) => v,
    }
}

/// Operation type of a wire code; codes without a name stay `Unknown`.
pub open spec fn operation_of_code(v: i32) -> OperationType {
    if v == 0 {
        OperationType::Create
    } else if v == 1 {
        OperationType::Update
    } else if v == 2 {
        OperationType::Delete
    } else {
        OperationType::Unknown(v)
    }
}

impl OperationType {
    /// Operation type of a wire code.
    pub fn from_code(v: i32) -> (r: OperationType)
        ensures
            r == operation_of_code(v),
    {
        if v == 0 {
            OperationType::Create
        } else if v == 1 {
            OperationType::Update
        } else if v == 2 {
            OperationType::Delete
        } else {
            OperationType::Unknown(v)
        }
    }

    /// Wire code of the operation type.
    pub fn code(&self) -> (r: i32)
        ensures
            r == operation_code(*self),
    {
        match self {
            OperationType::Create => 0,
            OperationType::Update => 1,
            OperationType::Delete => 2,
            OperationType::Unknown(v) => *v,
        }
    }
}

impl Default for OperationType {
    fn default() -> (r: OperationType)
        ensures
            r == OperationType::Create,
    {
        OperationType::Create
    }
}

/// Every wire code survives decoding and re-encoding.
pub proof fn lemma_operation_code_roundtrip(v: i32)
    ensures
        operation_code(operation_of_code(v)) == v,
{
}

/// A well-formed operation type (an `Unknown` never carries a named code)
/// survives encoding and decoding.
pub proof fn lemma_operation_roundtrip(op: OperationType)
    requires
        op matches OperationType::Unknown(v) ==> (v != 0 && v != 1 && v != 2),
    ensures
        operation_of_code(operation_code(op)) == op,
{
}

// ---- TaskType ----
/// Wire code of a task type.
pub open spec fn task_type_code(t: TaskType) -> i32 {
    match t {
        TaskType::Todo => 0,
        TaskType::Project => 1,
        TaskType::Heading => 2,
        TaskType::Unknown(v) => v,
    }
}

/// Task type of a wire code.
pub open spec fn task_type_of_code(v: i32) -> TaskType {
    if v == 0 {
        TaskType::Todo
    } else if v == 1 {
        TaskType::Project
    } else if v == 2 {
        TaskType::Heading
    } else {
        TaskType::Unknown(v)
    }
}

impl TaskType {
    /// Task type of a wire code.
    pub fn from_code(v: i32) -> (r: TaskType)
        ensures
            r == task_type_of_code(v),
    {
        if v == 0 {
            TaskType::Todo
        } else if v == 1 {
            TaskType::Project
        } else if v == 2 {
            TaskType::Heading
        } else {
            TaskType::Unknown(v)
        }
    }

    /// Wire code of the task type.
    pub fn code(&self) -> (r: i32)
        ensures
            r == task_type_code(*self),
    {
        match self {
            TaskType::Todo => 0,
            TaskType::Project => 1,
            TaskType::Heading => 2,
            TaskType::Unknown(v) => *v,
        }
    }
}

impl Default for TaskType {
    fn default() -> (r: TaskType)
        ensures
            r == TaskType::Todo,
    {
        TaskType::Todo
    }
}

/// Every wire code survives decoding and re-encoding.
pub proof fn lemma_task_type_code_roundtrip(v: i32)
    ensures
        task_type_code(task_type_of_code(v)) == v,
{
}

/// A well-formed task type survives encoding and decoding.
pub proof fn lemma_task_type_roundtrip(t: TaskType)
    requires
        t matches TaskType::Unknown(v) ==> (v != 0 && v != 1 && v != 2),
    ensures
        task_type_of_code(task_type_code(t)) == t,
{
}

// ---- TaskStatus ----
/// Wire code of a task status.
pub open spec fn task_status_code(s: TaskStatus) -> i32 {
    match s {
        TaskStatus::Incomplete => 0,
        TaskStatus::Canceled => 2,
        TaskStatus::Completed => 3,
        TaskStatus::Unknown(v) => v,
    }
}

/// Task status of a wire code.
pub open spec fn task_status_of_code(v: i32) -> TaskStatus {
    if v == 0 {
        TaskStatus::Incomplete
    } else if v == 2 {
        TaskStatus::Canceled
    } else if v == 3 {
        TaskStatus::Completed
    } else {
        TaskStatus::Unknown(v)
    }
}

impl TaskStatus {
    /// Task status of a wire code.
    pub fn from_code(v: i32) -> (r: TaskStatus)
        ensures
            r == task_status_of_code(v),
    {
        if v == 0 {
            TaskStatus::Incomplete
        } else if v == 2 {
            TaskStatus::Canceled
        } else if v == 3 {
            TaskStatus::Completed
        } else {
            TaskStatus::Unknown(v)
        }
    }

    /// Wire code of the task status.
    pub fn code(&self) -> (r: i32)
        ensures
            r == task_status_code(*self),
    {
        match self {
            TaskStatus::Incomplete => 0,
            TaskStatus::Canceled => 2,
            TaskStatus::Completed => 3,
            TaskStatus::Unknown(v) => *v,
        }
    }
}

impl Default for TaskStatus {
    fn default() -> (r: TaskStatus)
        ensures
            r == TaskStatus::Incomplete,
    {
        TaskStatus::Incomplete
    }
}

/// Every wire code survives decoding and re-encoding.
pub proof fn lemma_task_status_code_roundtrip(v: i32)
    ensures
        task_status_code(task_status_of_code(v)) == v,
{
}

/// A well-formed task status survives encoding and decoding.
pub proof fn lemma_task_status_roundtrip(s: TaskStatus)
    requires
        s matches TaskStatus::Unknown(v) ==> (v != 0 && v != 2 && v != 3),
    ensures
        task_status_of_code(task_status_code(s)) == s,
{
}

// ---- TaskStart ----
/// Wire code of a start location.
pub open spec fn task_start_code(s: TaskStart) -> i32 {
    match s {
        TaskStart::Inbox => 0,
        TaskStart::Anytime => 1,
        TaskStart::Someday => 2,
        TaskStart::Unknown(v) => v,
    }
}

/// Start location of a wire code.
pub open spec fn task_start_of_code(v: i32) -> TaskStart {
    if v == 0 {
        TaskStart::Inbox
    } else if v == 1 {
        TaskStart::Anytime
    } else if v == 2 {
        TaskStart::Someday
    } else {
        TaskStart::Unknown(v)
    }
}

impl TaskStart {
    /// Start location of a wire code.
    pub fn from_code(v: i32) -> (r: TaskStart)
        ensures
            r == task_start_of_code(v),
    {
        if v == 0 {
            TaskStart::Inbox
        } else if v == 1 {
            TaskStart::Anytime
        } else if v == 2 {
            TaskStart::Someday
        } else {
            TaskStart::Unknown(v)
        }
    }

    /// Wire code of the start location.
    pub fn code(&self) -> (r: i32)
        ensures
            r == task_start_code(*self),
    {
        match self {
            TaskStart::Inbox => 0,
            TaskStart::Anytime => 1,
            TaskStart::Someday => 2,
            TaskStart::Unknown(v) => *v,
        }
    }
}

impl Default for TaskStart {
    fn default() -> (r: TaskStart)
        ensures
            r == TaskStart::Inbox,
    {
        TaskStart::Inbox
    }
}

/// Every wire code survives decoding and re-encoding.
pub proof fn lemma_task_start_code_roundtrip(v: i32)
    ensures
        task_start_code(task_start_of_code(v)) == v,
{
}

/// A well-formed start location survives encoding and decoding.
pub proof fn lemma_task_start_roundtrip(s: TaskStart)
    requires
        s matches TaskStart::Unknown(v) ==> (v != 0 && v != 1 && v != 2),
    ensures
        task_start_of_code(task_start_code(s)) == s,
{
}

// ---- RecurrenceType ----
/// Wire code of a recurrence mode.
pub open spec fn recurrence_type_code(t: RecurrenceType) -> i32 {
    match t {
        RecurrenceType::FixedSchedule => 0,
        RecurrenceType::AfterCompletion => 1,
        RecurrenceType::Unknown(v) => v,
    }
}

/// Recurrence mode of a wire code.
pub open spec fn recurrence_type_of_code(v: i32) -> RecurrenceType {
    if v == 0 {
        RecurrenceType::FixedSchedule
    } else if v == 1 {
        RecurrenceType::AfterCompletion
    } else {
        RecurrenceType::Unknown(v)
    }
}

impl RecurrenceType {
    /// Recurrence mode of a wire code.
    pub fn from_code(v: i32) -> (r: RecurrenceType)
        ensures
            r == recurrence_type_of_code(v),
    {
        if v == 0 {
            RecurrenceType::FixedSchedule
        } else if v == 1 {
            RecurrenceType::AfterCompletion
        } else {
            RecurrenceType::Unknown(v)
        }
    }

    /// Wire code of the recurrence mode.
    pub fn code(&self) -> (r: i32)
        ensures
            r == recurrence_type_code(*self),
    {
        match self {
            RecurrenceType::FixedSchedule => 0,
            RecurrenceType::AfterCompletion => 1,
            RecurrenceType::Unknown(v) => *v,
        }
    }
}

impl Default for RecurrenceType {
    fn default() -> (r: RecurrenceType)
        ensures
            r == RecurrenceType::FixedSchedule,
    {
        RecurrenceType::FixedSchedule
    }
}

/// Every wire code survives decoding and re-encoding.
pub proof fn lemma_recurrence_type_code_roundtrip(v: i32)
    ensures
        recurrence_type_code(recurrence_type_of_code(v)) == v,
{
}

/// A well-formed recurrence mode survives encoding and decoding.
pub proof fn lemma_recurrence_type_roundtrip(t: RecurrenceType)
    requires
        t matches RecurrenceType::Unknown(v) ==> (v != 0 && v != 1),
    ensures
        recurrence_type_of_code(recurrence_type_code(t)) == t,
{
}

// ---- FrequencyUnit ----
/// Wire code (bitmask) of a frequency unit.
pub open spec fn frequency_unit_code(u: FrequencyUnit) -> i32 {
    match u {
        FrequencyUnit::Daily => 8,
        FrequencyUnit::Monthly => 16,
        FrequencyUnit::Weekly => 256,
        FrequencyUnit::Unknown(v) => v,
    }
}

/// Frequency unit of a wire code.
pub open spec fn frequency_unit_of_code(v: i32) -> FrequencyUnit {
    if v == 8 {
        FrequencyUnit::Daily
    } else if v == 16 {
        FrequencyUnit::Monthly
    } else if v == 256 {
        FrequencyUnit::Weekly
    } else {
        FrequencyUnit::Unknown(v)
    }
}

impl FrequencyUnit {
    /// Frequency unit of a wire code.
    pub fn from_code(v: i32) -> (r: FrequencyUnit)
        ensures
            r == frequency_unit_of_code(v),
    {
        if v == 8 {
            FrequencyUnit::Daily
        } else if v == 16 {
            FrequencyUnit::Monthly
        } else if v == 256 {
            FrequencyUnit::Weekly
        } else {
            FrequencyUnit::Unknown(v)
        }
    }

    /// Wire code of the frequency unit.
    pub fn code(&self) -> (r: i32)
        ensures
            r == frequency_unit_code(*self),
    {
        match self {
            FrequencyUnit::Daily => 8,
            FrequencyUnit::Monthly => 16,
            FrequencyUnit::Weekly => 256,
            FrequencyUnit::Unknown(v) => *v,
        }
    }
}

impl Default for FrequencyUnit {
    fn default() -> (r: FrequencyUnit)
        ensures
            r == FrequencyUnit::Weekly,
    {
        FrequencyUnit::Weekly
    }
}

/// Every wire code survives decoding and re-encoding.
pub proof fn lemma_frequency_unit_code_roundtrip(v: i32)
    ensures
        frequency_unit_code(frequency_unit_of_code(v)) == v,
{
}

/// A well-formed frequency unit survives encoding and decoding.
pub proof fn lemma_frequency_unit_roundtrip(u: FrequencyUnit)
    requires
        u matches FrequencyUnit::Unknown(v) ==> (v != 8 && v != 16 && v != 256),
    ensures
        frequency_unit_of_code(frequency_unit_code(u)) == u,
{
}

/// Default recurrence frequency unit (`rr.fu`) is weekly.
pub fn default_frequency_unit() -> (r: FrequencyUnit)
    ensures
        r == FrequencyUnit::Weekly,
{
    FrequencyUnit::Weekly
}

/// Default recurrence frequency amount (`rr.fa`) is every 1 unit.
pub fn default_frequency_amount() -> (r: i32)
    ensures
        r == 1,
{
    1
}

/// Default recurrence end date (`rr.ed`) far in the future (~year 4001).
pub fn default_recurrence_end_date() -> (r: i64)
    ensures
        r == 64_092_211_200,
{
    64_092_211_200
}

/// Current observed recurrence rule version (`rrv`).
pub fn default_recurrence_rule_version() -> (r: i32)
    ensures
        r == 4,
{
    4
}

} // verus!
