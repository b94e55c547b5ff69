use vstd::prelude::*;

use crate::address::{address_text, Address};

verus! {

/// A reference to an input of a programmable transaction, by its index.
#[derive(Clone, Copy, Debug, PartialEq, Eq, Structural)]
pub enum Argument {
    Input(u16),
}

/// An input of a programmable transaction: an object named by its id, or
/// pure BCS bytes.
#[derive(Debug)]
pub enum Input {
    ObjectId(String),
    Pure(Vec<u8>),
}

/// The mathematical value of an [`Input`].
pub enum InputView {
    ObjectId(Seq<char>),
    Pure(Seq<u8>),
}

impl View for Input {
    type V = InputView;

    open spec fn view(&self) -> InputView {
        match self {
            Input::ObjectId(s) => InputView::ObjectId(s@),
            Input::Pure(b) => InputView::Pure(b@),
        }
    }
}

/// A call of a Move function.
#[derive(Debug)]
pub struct MoveCall {
    pub package: String,
    pub module: String,
    pub function: String,
    pub arguments: Vec<Argument>,
}

/// The mathematical value of a [`MoveCall`].
pub struct MoveCallView {
    pub package: Seq<char>,
    pub module: Seq<char>,
    pub function: Seq<char>,
    pub arguments: Seq<Argument>,
}

impl View for MoveCall {
    type V = MoveCallView;

    open spec fn view(&self) -> MoveCallView {
        MoveCallView {
            package: self.package@,
            module: self.module@,
            function: self.function@,
            arguments: self.arguments@,
        }
    }
}

/// A programmable transaction: its inputs and the Move calls that use them.
#[derive(Debug)]
pub struct ProgrammableTransaction {
    pub inputs: Vec<Input>,
    pub commands: Vec<MoveCall>,
}

/// The mathematical value of a [`ProgrammableTransaction`].
#[verifier::ext_equal]
pub struct ProgrammableTransactionView {
    pub inputs: Seq<InputView>,
    pub commands: Seq<MoveCallView>,
}

impl View for ProgrammableTransaction {
    type V = ProgrammableTransactionView;

    open spec fn view(&self) -> ProgrammableTransactionView {
        ProgrammableTransactionView {
            inputs: self.inputs@.map_values(|i: Input| i@),
            commands: self.commands@.map_values(|c: MoveCall| c@),
        }
    }
}

/// A request to simulate a transaction without executing it.
#[derive(Debug)]
pub struct SimulationRequest {
    /// The transaction to simulate.
    pub transaction: ProgrammableTransaction,
    /// The sender the transaction is simulated for.
    pub sender: String,
    /// The fields of the response that are asked for.
    pub read_mask: Vec<String>,
    /// Whether the transaction checks are switched off.
    pub checks_disabled: bool,
}

/// The mathematical value of a [`SimulationRequest`].
#[verifier::ext_equal]
pub struct SimulationRequestView {
    pub transaction: ProgrammableTransactionView,
    pub sender: Seq<char>,
    pub read_mask: Seq<Seq<char>>,
    pub checks_disabled: bool,
}

/// The views of a list of strings.
pub open spec fn string_views(v: Seq<String>) -> Seq<Seq<char>> {
    v.map_values(|s: String| s@)
}

impl View for SimulationRequest {
    type V = SimulationRequestView;

    open spec fn view(&self) -> SimulationRequestView {
        SimulationRequestView {
            transaction: self.transaction@,
            sender: self.sender@,
            read_mask: string_views(self.read_mask@),
            checks_disabled: self.checks_disabled,
        }
    }
}

/// The input that stands for the shared system state object, `0x5`.
pub open spec fn system_state_input() -> InputView {
    InputView::ObjectId("0x5"@)
}

/// The index argument that the original bookkeeping hands out for input
/// `index`: indices are 16-bit, so they wrap at 65536.
pub open spec fn input_argument(index: int) -> Argument {
    Argument::Input((index % 65536) as u16)
}

/// The `k`-th call of `0x3::haneul_system::<function>`, on the system state
/// and on input `k + 1`.
pub open spec fn system_call(function: Seq<char>, k: int) -> MoveCallView {
    MoveCallView {
        package: "0x3"@,
        module: "haneul_system"@,
        function,
        arguments: seq![Argument::Input(0), input_argument(k + 1)],
    }
}

/// One call of `calculate_rewards` per staked object, each on the system
/// state and the object, which is passed by its id.
pub open spec fn rewards_transaction(ids: Seq<Address>) -> ProgrammableTransactionView {
    ProgrammableTransactionView {
        inputs: seq![system_state_input()] + ids.map_values(
            |a: Address| InputView::ObjectId(address_text(a@)),
        ),
        commands: Seq::new(ids.len(), |k: int| system_call("calculate_rewards"@, k)),
    }
}

/// One call of `validator_address_by_pool_id` per pool, each on the system
/// state and the pool id, which is passed as pure bytes.
pub open spec fn validator_transaction(pool_ids: Seq<Address>) -> ProgrammableTransactionView {
    ProgrammableTransactionView {
        inputs: seq![system_state_input()] + pool_ids.map_values(|a: Address| InputView::Pure(a@)),
        commands: Seq::new(
            pool_ids.len(),
            |k: int| system_call("validator_address_by_pool_id"@, k),
        ),
    }
}

/// A simulation of `transaction` from sender `0x0` with checks switched off,
/// asking for the command outputs' return values and the execution status.
pub open spec fn simulation_of(transaction: ProgrammableTransactionView) -> SimulationRequestView {
    SimulationRequestView {
        transaction,
        sender: "0x0"@,
        read_mask: seq!["command_outputs.return_values.value"@, "transaction.effects.status"@],
        checks_disabled: true,
    }
}

/// The rewards transaction for `ids` has the system state as input 0 and
/// the id of object `k`, in text form, as input `k + 1`; command `k` calls
/// `0x3::haneul_system::calculate_rewards` on input 0 and, while indices fit
/// in 16 bits, on input `k + 1`: the object it asks about is object `k`.
pub proof fn lemma_rewards_transaction_asks_each_id(ids: Seq<Address>)
    ensures
        rewards_transaction(ids).inputs.len() == ids.len() + 1,
        rewards_transaction(ids).commands.len() == ids.len(),
        rewards_transaction(ids).inputs[0] == InputView::ObjectId("0x5"@),
        forall|k: int|
            0 <= k < ids.len() ==> rewards_transaction(ids).inputs[k + 1] == InputView::ObjectId(
                address_text(#[trigger] ids[k]@),
            ),
        forall|k: int|
            #![trigger rewards_transaction(ids).commands[k]]
            0 <= k < ids.len() ==> {
                &&& rewards_transaction(ids).commands[k].package == "0x3"@
                &&& rewards_transaction(ids).commands[k].module == "haneul_system"@
                &&& rewards_transaction(ids).commands[k].function == "calculate_rewards"@
                &&& rewards_transaction(ids).commands[k].arguments.len() == 2
                &&& rewards_transaction(ids).commands[k].arguments[0] == Argument::Input(0)
                &&& k + 1 < 65536 ==> rewards_transaction(ids).commands[k].arguments[1]
                    == Argument::Input((k + 1) as u16)
            },
{
    let t = rewards_transaction(ids);
    assert forall|k: int| 0 <= k < ids.len() implies t.inputs[k + 1] == InputView::ObjectId(
        address_text(#[trigger] ids[k]@),
    ) by {
        assert(t.inputs[k + 1] == ids.map_values(
            |a: Address| InputView::ObjectId(address_text(a@)),
        )[k]);
    }
}

/// The validator transaction for `pool_ids` has the system state as input 0
/// and the bytes of pool `k` as pure input `k + 1`; command `k` calls
/// `0x3::haneul_system::validator_address_by_pool_id` on input 0 and, while
/// indices fit in 16 bits, on input `k + 1`: the pool it asks about is pool
/// `k`.
pub proof fn lemma_validator_transaction_asks_each_pool(pool_ids: Seq<Address>)
    ensures
        validator_transaction(pool_ids).inputs.len() == pool_ids.len() + 1,
        validator_transaction(pool_ids).commands.len() == pool_ids.len(),
        validator_transaction(pool_ids).inputs[0] == InputView::ObjectId("0x5"@),
        forall|k: int|
            0 <= k < pool_ids.len() ==> validator_transaction(pool_ids).inputs[k + 1]
                == InputView::Pure(#[trigger] pool_ids[k]@),
        forall|k: int|
            #![trigger validator_transaction(pool_ids).commands[k]]
            0 <= k < pool_ids.len() ==> {
                &&& validator_transaction(pool_ids).commands[k].package == "0x3"@
                &&& validator_transaction(pool_ids).commands[k].module == "haneul_system"@
                &&& validator_transaction(pool_ids).commands[k].function
                    == "validator_address_by_pool_id"@
                &&& validator_transaction(pool_ids).commands[k].arguments.len() == 2
                &&& validator_transaction(pool_ids).commands[k].arguments[0] == Argument::Input(0)
                &&& k + 1 < 65536 ==> validator_transaction(pool_ids).commands[k].arguments[1]
                    == Argument::Input((k + 1) as u16)
            },
{
    let t = validator_transaction(pool_ids);
    assert forall|k: int| 0 <= k < pool_ids.len() implies t.inputs[k + 1] == InputView::Pure(
        #[trigger] pool_ids[k]@,
    ) by {
        assert(t.inputs[k + 1] == pool_ids.map_values(|a: Address| InputView::Pure(a@))[k]);
    }
}

/// A simulation request carries its transaction unchanged, is sent from
/// `0x0` with checks switched off, and asks for exactly the return values of
/// the command outputs and the execution status, in that order.
pub proof fn lemma_simulation_request_fields(transaction: ProgrammableTransactionView)
    ensures
        simulation_of(transaction).transaction == transaction,
        simulation_of(transaction).sender == "0x0"@,
        simulation_of(transaction).checks_disabled,
        simulation_of(transaction).read_mask.len() == 2,
        simulation_of(transaction).read_mask[0] == "command_outputs.return_values.value"@,
        simulation_of(transaction).read_mask[1] == "transaction.effects.status"@,
{
}

/// Builds the transaction with one call of `0x3::haneul_system::<function>`
/// per address; each address becomes an object-id input when `as_object` is
/// set and a pure input otherwise.
fn system_calls(addresses: &[Address], function: &str, as_object: bool) -> (res:
    ProgrammableTransaction)
    ensures
        res@.inputs == seq![system_state_input()] + addresses@.map_values(
            |a: Address|
                if as_object {
                    InputView::ObjectId(address_text(a@))
                } else {
                    InputView::Pure(a@)
                },
        ),
        res@.commands == Seq::new(addresses@.len(), |k: int| system_call(function@, k)),
{
    let ghost f = |a: Address|
        if as_object {
            InputView::ObjectId(address_text(a@))
        } else {
            InputView::Pure(a@)
        };
    let mut inputs: Vec<Input> = Vec::new();
    inputs.push(Input::ObjectId("0x5".to_owned()));
    let mut commands: Vec<MoveCall> = Vec::new();
    let mut k: usize = 0;
    while k < addresses.len()
        invariant
            0 <= k <= addresses.len(),
            inputs@.len() == k + 1,
            inputs@.map_values(|i: Input| i@) =~= seq![system_state_input()]
                + addresses@.take(k as int).map_values(f),
            commands@.map_values(|c: MoveCall| c@) =~= Seq::new(
                k as nat,
                |j: int| system_call(function@, j),
            ),
            f == (|a: Address|
                if as_object {
                    InputView::ObjectId(address_text(a@))
                } else {
                    InputView::Pure(a@)
                }),
        decreases addresses.len() - k,
    {
        let index = (inputs.len() % 65536) as u16;
        let a = addresses[k];
        let input = if as_object {
            Input::ObjectId(a.to_hex())
        } else {
            Input::Pure(a.to_vec())
        };
        assert(input@ == f(a));
        let ghost old_inputs = inputs@;
        let ghost old_commands = commands@;
        inputs.push(input);
        let mut arguments: Vec<Argument> = Vec::new();
        arguments.push(Argument::Input(0));
        arguments.push(Argument::Input(index));
        commands.push(
            MoveCall {
                package: "0x3".to_owned(),
                module: "haneul_system".to_owned(),
                function: function.to_owned(),
                arguments,
            },
        );
        proof {
            assert(addresses@.take(k + 1) =~= addresses@.take(k as int).push(a));
            assert(arguments@ =~= seq![Argument::Input(0), input_argument(k + 1)]);
            assert(inputs@ == old_inputs.push(input));
            assert(inputs@.map_values(|i: Input| i@) =~= old_inputs.map_values(|i: Input| i@).push(
                input@,
            ));
            assert(addresses@.take(k + 1).map_values(f) =~= addresses@.take(k as int).map_values(
                f,
            ).push(f(a)));
            assert(commands@.last()@ == system_call(function@, k as int));
            assert(commands@.map_values(|c: MoveCall| c@) =~= old_commands.map_values(
                |c: MoveCall| c@,
            ).push(system_call(function@, k as int)));
        }
        k = k + 1;
    }
    assert(addresses@.take(addresses@.len() as int) =~= addresses@);
    ProgrammableTransaction { inputs, commands }
}

/// Wraps a transaction in a simulation request from sender `0x0`, with
/// checks switched off, asking for return values and the execution status.
fn simulation(transaction: ProgrammableTransaction) -> (res: SimulationRequest)
    ensures
        res@ == simulation_of(transaction@),
{
    let mut read_mask: Vec<String> = Vec::new();
    read_mask.push("command_outputs.return_values.value".to_owned());
    read_mask.push("transaction.effects.status".to_owned());
    assert(string_views(read_mask@) =~= seq![
        "command_outputs.return_values.value"@,
        "transaction.effects.status"@,
    ]);
    SimulationRequest {
        transaction,
        sender: "0x0".to_owned(),
        read_mask,
        checks_disabled: true,
    }
}

/// The request that asks for the rewards each staked object has accrued.
pub fn calculate_rewards_request(staked_ids: &[Address]) -> (res: SimulationRequest)
    ensures
        res@ == simulation_of(rewards_transaction(staked_ids@)),
{
    let t = system_calls(staked_ids, "calculate_rewards", true);
    assert(t@ =~= rewards_transaction(staked_ids@));
    simulation(t)
}

/// The request that asks for the validator address of each staking pool.
pub fn validator_addresses_request(pool_ids: &[Address]) -> (res: SimulationRequest)
    ensures
        res@ == simulation_of(validator_transaction(pool_ids@)),
{
    let t = system_calls(pool_ids, "validator_address_by_pool_id", false);
    assert(t@ =~= validator_transaction(pool_ids@));
    simulation(t)
}

} // verus!
