//! The encoder: turns a logical program into a compiled image.  A first
//! pass lays every string literal and plugin name out in memory, with the
//! label table resolving names to byte offsets; the bump pointer after
//! that pass is the program's start address, and a second pass emits one
//! 16-byte instruction word per instruction from there.  Before encoding,
//! every plugin opcode must have a handler among the loaded plugins'
//! exported functions.

use vstd::prelude::*;

use vstd::utf8::encode_utf8;

use crate::instruction::Instruction;
use crate::memory::{le_bytes_of_u128, u128_to_le_bytes, Memory, MAX_MEMORY_SIZE};
use crate::numbers::{dec_text, u64_to_dec};
use crate::opcode::{Opcode, PluginValue};
use crate::parser::program::{LabelValueView, Program};
use crate::table::{assoc_lookup, LiteralTable};
use crate::text::{lower_seq, str_eq, to_ascii_lower};

verus! {

/// The state of the literal-allocation pass: the table built so far and
/// the bytes placed in memory from offset zero up.
pub struct AllocState {
    pub table: Seq<(Seq<char>, usize)>,
    pub mem: Seq<u8>,
}

/// What compilation produces when it goes through: the finished literal
/// table, the start address, and the full program bytes.
pub struct CompileOut {
    pub table: Seq<(Seq<char>, usize)>,
    pub start: int,
    pub full: Seq<u8>,
}

/// The literal-allocation pass over the label table: each string literal's
/// bytes placed with a zero terminator and its offset recorded; each
/// address label recorded as its instruction index times 16.  A name seen
/// before is skipped.  Nothing must overrun the memory capacity, and an
/// address label must fit the address space.
pub open spec fn alloc_labels(
    labels: Seq<(Seq<char>, LabelValueView)>,
    st: AllocState,
) -> Option<AllocState>
    decreases labels.len(),
{
    if labels.len() == 0 {
        Some(st)
    } else {
        let (name, value) = labels[0];
        if assoc_lookup(st.table, name) is Some {
            alloc_labels(labels.drop_first(), st)
        } else {
            match value {
                LabelValueView::Literal(l) => {
                    let bytes = encode_utf8(l);
                    if st.mem.len() + bytes.len() + 1 > MAX_MEMORY_SIZE {
                        None
                    } else {
                        alloc_labels(
                            labels.drop_first(),
                            AllocState {
                                table: st.table.push((name, st.mem.len() as usize)),
                                mem: st.mem + bytes + seq![0u8],
                            },
                        )
                    }
                },
                LabelValueView::Address(a) => {
                    if 16 * a > usize::MAX {
                        None
                    } else {
                        alloc_labels(
                            labels.drop_first(),
                            AllocState {
                                table: st.table.push((name, (16 * a) as usize)),
                                mem: st.mem,
                            },
                        )
                    }
                },
            }
        }
    }
}

/// The plugin-name pass: for each plugin opcode still carrying a name the
/// table does not know, the name's bytes are placed and recorded.
pub open spec fn alloc_plugin_names(instrs: Seq<Instruction>, st: AllocState) -> Option<AllocState>
    decreases instrs.len(),
{
    if instrs.len() == 0 {
        Some(st)
    } else {
        match instrs[0].opcode {
            Opcode::Plugin(PluginValue::Name(n)) => {
                if assoc_lookup(st.table, n@) is Some {
                    alloc_plugin_names(instrs.drop_first(), st)
                } else {
                    let bytes = encode_utf8(n@);
                    if st.mem.len() + bytes.len() + 1 > MAX_MEMORY_SIZE {
                        None
                    } else {
                        alloc_plugin_names(
                            instrs.drop_first(),
                            AllocState {
                                table: st.table.push((n@, st.mem.len() as usize)),
                                mem: st.mem + bytes + seq![0u8],
                            },
                        )
                    }
                }
            },
            _ => alloc_plugin_names(instrs.drop_first(), st),
        }
    }
}

/// The emit pass: each instruction encoded against the finished table and
/// appended as sixteen bytes.  A plugin opcode still without name or
/// address, or an image past the memory capacity, stops compilation.
pub open spec fn emit_acc(
    instrs: Seq<Instruction>,
    table: Seq<(Seq<char>, usize)>,
    mem: Seq<u8>,
) -> Option<Seq<u8>>
    decreases instrs.len(),
{
    if instrs.len() == 0 {
        Some(mem)
    } else if instrs[0].opcode matches Opcode::Plugin(PluginValue::Unset) {
        None
    } else if instrs[0].opcode matches Opcode::Plugin(PluginValue::Name(n)) && assoc_lookup(
        table,
        n@,
    ) is None {
        None
    } else if mem.len() + 16 > MAX_MEMORY_SIZE {
        None
    } else {
        emit_acc(
            instrs.drop_first(),
            table,
            mem + le_bytes_of_u128(instrs[0].spec_encode(table)),
        )
    }
}

/// What compiling a program produces, when everything fits: the literal
/// table, the start address right after the allocation passes, and the
/// full image bytes.
pub open spec fn compile_model(p: Program) -> Option<CompileOut> {
    let st0 = AllocState { table: Seq::empty(), mem: Seq::empty() };
    match alloc_labels(p.labels@, st0) {
        Some(st1) => match alloc_plugin_names(p.instructions@, st1) {
            Some(st2) => match emit_acc(p.instructions@, st2.table, st2.mem) {
                Some(full) => Some(
                    CompileOut { table: st2.table, start: st2.mem.len() as int, full },
                ),
                None => None,
            },
            None => None,
        },
        None => None,
    }
}

/// The emit pass appends exactly one 16-byte slot per instruction: the
/// bytes it started from stay in place, and the `k`-th instruction's
/// encoded word sits at `16 * k` bytes past them.
pub proof fn lemma_emit_layout(
    instrs: Seq<Instruction>,
    table: Seq<(Seq<char>, usize)>,
    mem: Seq<u8>,
)
    requires
        emit_acc(instrs, table, mem) is Some,
    ensures
        ({
            let full = emit_acc(instrs, table, mem)->Some_0;
            &&& full.len() == mem.len() + 16 * instrs.len()
            &&& full.subrange(0, mem.len() as int) == mem
            &&& forall|k: int|
                0 <= k < instrs.len() ==> full.subrange(
                    mem.len() + 16 * k,
                    mem.len() + 16 * k + 16,
                ) == le_bytes_of_u128(#[trigger] instrs[k].spec_encode(table))
        }),
    decreases instrs.len(),
{
    let full = emit_acc(instrs, table, mem)->Some_0;
    if instrs.len() == 0 {
        assert(full.subrange(0, mem.len() as int) =~= mem);
    } else {
        let bytes = le_bytes_of_u128(instrs[0].spec_encode(table));
        let mem2 = mem + bytes;
        lemma_emit_layout(instrs.drop_first(), table, mem2);
        assert(full == emit_acc(instrs.drop_first(), table, mem2)->Some_0);
        assert(bytes.len() == 16);
        assert(full.subrange(0, mem2.len() as int) == mem2);
        assert forall|j: int| 0 <= j < mem2.len() implies full[j] == mem2[j] by {
            assert(full.subrange(0, mem2.len() as int)[j] == full[j]);
        }
        assert(full.subrange(0, mem.len() as int) =~= mem);
        assert forall|k: int|
            0 <= k < instrs.len() implies full.subrange(mem.len() + 16 * k, mem.len() + 16 * k + 16)
            == le_bytes_of_u128(#[trigger] instrs[k].spec_encode(table)) by {
            if k == 0 {
                assert(full.subrange(mem.len() as int, mem.len() + 16 as int) =~= bytes);
            } else {
                assert(instrs.drop_first()[k - 1] == instrs[k]);
                assert(full.subrange(mem2.len() + 16 * (k - 1), mem2.len() + 16 * (k - 1) + 16)
                    == le_bytes_of_u128(instrs.drop_first()[k - 1].spec_encode(table)));
                assert(mem2.len() + 16 * (k - 1) == mem.len() + 16 * k);
            }
        }
    }
}

/// Every instruction slot of a compiled program sits at
/// `start_address + 16 * k`: the image is the literal region, then one
/// aligned 16-byte slot per instruction, and nothing more.
pub proof fn lemma_compiled_slots(p: Program)
    requires
        compile_model(p) is Some,
    ensures
        ({
            let out = compile_model(p)->Some_0;
            &&& out.full.len() == out.start + 16 * p.instructions@.len()
            &&& forall|k: int|
                0 <= k < p.instructions@.len() ==> out.full.subrange(
                    out.start + 16 * k,
                    out.start + 16 * k + 16,
                ) == le_bytes_of_u128(#[trigger] p.instructions@[k].spec_encode(out.table))
        }),
{
    let st0 = AllocState { table: Seq::empty(), mem: Seq::empty() };
    let st1 = alloc_labels(p.labels@, st0)->Some_0;
    let st2 = alloc_plugin_names(p.instructions@, st1)->Some_0;
    lemma_emit_layout(p.instructions@, st2.table, st2.mem);
}

/// The start address of a compiled program equals the bump pointer
/// immediately after the literal-allocation passes laid out every string
/// literal and plugin name.
pub proof fn lemma_start_address_after_literals(p: Program)
    requires
        compile_model(p) is Some,
    ensures
        ({
            let st0 = AllocState { table: Seq::empty(), mem: Seq::empty() };
            let st1 = alloc_labels(p.labels@, st0)->Some_0;
            let st2 = alloc_plugin_names(p.instructions@, st1)->Some_0;
            compile_model(p)->Some_0.start == st2.mem.len()
        }),
{
}

/// The lowercased display name of a plugin opcode's value, as handler
/// names and error messages carry it.
pub open spec fn plugin_display_lower(v: PluginValue) -> Seq<char> {
    match v {
        PluginValue::Name(n) => lower_seq(n@),
        PluginValue::Address(a) => dec_text(a as nat),
        PluginValue::Unset => "none"@,
    }
}

/// The handler function a plugin opcode needs: `handle_` followed by its
/// lowercased name.
pub open spec fn plugin_handler_name(v: PluginValue) -> Seq<char> {
    "handle_"@ + plugin_display_lower(v)
}

/// Whether some handler name in the list is exactly `h`.
pub open spec fn handlers_contain(handlers: Seq<Seq<char>>, h: Seq<char>) -> bool {
    exists|j: int| 0 <= j < handlers.len() && handlers[j] == h
}

/// The concatenated pre-flight error text: one sentence for each plugin
/// opcode whose handler no loaded plugin exposes, or that no plugin at
/// all could handle.
pub open spec fn missing_msg_acc(
    instrs: Seq<Instruction>,
    handlers: Seq<Seq<char>>,
    acc: Seq<char>,
) -> Seq<char>
    decreases instrs.len(),
{
    if instrs.len() == 0 {
        acc
    } else {
        match instrs[0].opcode {
            Opcode::Plugin(v) => {
                if handlers.len() == 0 {
                    missing_msg_acc(
                        instrs.drop_first(),
                        handlers,
                        acc + "No plugins found for handling opcode: `"@ + plugin_display_lower(v)
                            + "`. "@,
                    )
                } else if !handlers_contain(handlers, plugin_handler_name(v)) {
                    missing_msg_acc(
                        instrs.drop_first(),
                        handlers,
                        acc + "No plugin found for handling opcode: `"@ + plugin_display_lower(v)
                            + "`. "@,
                    )
                } else {
                    missing_msg_acc(instrs.drop_first(), handlers, acc)
                }
            },
            _ => missing_msg_acc(instrs.drop_first(), handlers, acc),
        }
    }
}

/// The views of a list of handler names.
pub open spec fn handler_views(handlers: Seq<String>) -> Seq<Seq<char>> {
    handlers.map_values(|s: String| s@)
}

/// Whether compilation of a program goes through against the given
/// handler names: everything fits in memory, no plugin opcode is without
/// a value, and every plugin opcode has its handler.
pub open spec fn compile_ok(p: Program, handlers: Seq<Seq<char>>) -> bool {
    &&& compile_model(p) is Some
    &&& missing_msg_acc(p.instructions@, handlers, Seq::empty()) == Seq::<char>::empty()
}

/// Whether the instruction at `k`, if a plugin opcode, has its handler
/// among the given handler names.
pub open spec fn plugin_handled_at(
    instrs: Seq<Instruction>,
    handlers: Seq<Seq<char>>,
    k: int,
) -> bool {
    match instrs[k].opcode {
        Opcode::Plugin(v) => handlers.len() > 0 && handlers_contain(
            handlers,
            plugin_handler_name(v),
        ),
        _ => true,
    }
}

/// Whether every plugin opcode among the instructions has its handler; an
/// instruction of the closed set puts no condition on the handlers.
pub open spec fn all_plugins_handled(instrs: Seq<Instruction>, handlers: Seq<Seq<char>>) -> bool {
    forall|k: int| 0 <= k < instrs.len() ==> #[trigger] plugin_handled_at(instrs, handlers, k)
}

/// The pre-flight walk only ever appends to its accumulated message.
proof fn lemma_missing_acc_prefix(
    instrs: Seq<Instruction>,
    handlers: Seq<Seq<char>>,
    acc: Seq<char>,
)
    ensures
        missing_msg_acc(instrs, handlers, acc) == acc + missing_msg_acc(
            instrs,
            handlers,
            Seq::empty(),
        ),
    decreases instrs.len(),
{
    if instrs.len() == 0 {
        assert(acc + Seq::<char>::empty() =~= acc);
    } else {
        let rest = instrs.drop_first();
        let tail = missing_msg_acc(rest, handlers, Seq::<char>::empty());
        match instrs[0].opcode {
            Opcode::Plugin(v) => {
                if handlers.len() == 0 {
                    let a2 = acc + "No plugins found for handling opcode: `"@
                        + plugin_display_lower(v) + "`. "@;
                    let e2 = Seq::<char>::empty() + "No plugins found for handling opcode: `"@
                        + plugin_display_lower(v) + "`. "@;
                    lemma_missing_acc_prefix(rest, handlers, a2);
                    lemma_missing_acc_prefix(rest, handlers, e2);
                    assert(a2 + tail =~= acc + (e2 + tail));
                } else if !handlers_contain(handlers, plugin_handler_name(v)) {
                    let a2 = acc + "No plugin found for handling opcode: `"@
                        + plugin_display_lower(v) + "`. "@;
                    let e2 = Seq::<char>::empty() + "No plugin found for handling opcode: `"@
                        + plugin_display_lower(v) + "`. "@;
                    lemma_missing_acc_prefix(rest, handlers, a2);
                    lemma_missing_acc_prefix(rest, handlers, e2);
                    assert(a2 + tail =~= acc + (e2 + tail));
                } else {
                    lemma_missing_acc_prefix(rest, handlers, acc);
                }
            },
            _ => {
                lemma_missing_acc_prefix(rest, handlers, acc);
            },
        }
    }
}

/// The pre-flight message is empty exactly when every plugin opcode is
/// handled: each unhandled one appends a non-empty sentence.
proof fn lemma_missing_empty_iff(instrs: Seq<Instruction>, handlers: Seq<Seq<char>>)
    ensures
        (missing_msg_acc(instrs, handlers, Seq::empty()).len() == 0) <==> all_plugins_handled(
            instrs,
            handlers,
        ),
    decreases instrs.len(),
{
    reveal_strlit("No plugins found for handling opcode: `");
    reveal_strlit("No plugin found for handling opcode: `");
    if instrs.len() == 0 {
        assert(all_plugins_handled(instrs, handlers));
    } else {
        let rest = instrs.drop_first();
        lemma_missing_empty_iff(rest, handlers);
        if plugin_handled_at(instrs, handlers, 0) {
            assert(missing_msg_acc(instrs, handlers, Seq::empty()) == missing_msg_acc(
                rest,
                handlers,
                Seq::empty(),
            ));
            if all_plugins_handled(rest, handlers) {
                assert forall|k: int| 0 <= k < instrs.len() implies #[trigger] plugin_handled_at(
                    instrs,
                    handlers,
                    k,
                ) by {
                    if k > 0 {
                        assert(rest[k - 1] == instrs[k]);
                        assert(plugin_handled_at(rest, handlers, k - 1));
                    }
                }
            }
            if all_plugins_handled(instrs, handlers) {
                assert forall|k: int| 0 <= k < rest.len() implies #[trigger] plugin_handled_at(
                    rest,
                    handlers,
                    k,
                ) by {
                    assert(rest[k] == instrs[k + 1]);
                    assert(plugin_handled_at(instrs, handlers, k + 1));
                }
            }
        } else {
            match instrs[0].opcode {
                Opcode::Plugin(v) => {
                    if handlers.len() == 0 {
                        let e2 = Seq::<char>::empty() + "No plugins found for handling opcode: `"@
                            + plugin_display_lower(v) + "`. "@;
                        lemma_missing_acc_prefix(rest, handlers, e2);
                        assert(e2.len() > 0);
                    } else {
                        let e2 = Seq::<char>::empty() + "No plugin found for handling opcode: `"@
                            + plugin_display_lower(v) + "`. "@;
                        lemma_missing_acc_prefix(rest, handlers, e2);
                        assert(e2.len() > 0);
                    }
                    assert(!all_plugins_handled(instrs, handlers)) by {
                        if all_plugins_handled(instrs, handlers) {
                            assert(plugin_handled_at(instrs, handlers, 0));
                        }
                    }
                },
                _ => {
                    assert(false);
                },
            }
        }
    }
}

/// A program whose image fits the memory model compiles exactly when every
/// plugin opcode among its instructions has a handler among the loaded
/// plugins' exported function names; an opcode of the closed set never
/// triggers the pre-flight failure.
pub proof fn lemma_compile_preflight(p: Program, handlers: Seq<Seq<char>>)
    requires
        compile_model(p) is Some,
    ensures
        compile_ok(p, handlers) <==> all_plugins_handled(p.instructions@, handlers),
{
    lemma_missing_empty_iff(p.instructions@, handlers);
    let m = missing_msg_acc(p.instructions@, handlers, Seq::<char>::empty());
    if m.len() == 0 {
        assert(m =~= Seq::<char>::empty());
    }
}

/// A compiled program: the byte image of its memory, the byte offset of
/// its first instruction slot, the first free byte after it, and the
/// plugin binaries to load beside it.
#[derive(Debug, Clone, PartialEq)]
pub struct CompiledProgram {
    pub start_address: usize,
    pub memory_address: usize,
    pub program: Vec<u8>,
    pub plugins: Vec<Vec<u8>>,
}

impl CompiledProgram {
    pub fn new(plugins: Vec<Vec<u8>>) -> (r: CompiledProgram)
        ensures
            r.start_address == 0,
            r.memory_address == 0,
            r.program@.len() == 0,
            r.plugins == plugins,
    {
        CompiledProgram { start_address: 0, plugins, program: Vec::new(), memory_address: 0 }
    }

    pub fn new_e() -> (r: CompiledProgram)
        ensures
            r.start_address == 0,
            r.memory_address == 0,
            r.program@.len() == 0,
            r.plugins@.len() == 0,
    {
        CompiledProgram { start_address: 0, plugins: Vec::new(), program: Vec::new(), memory_address: 0 }
    }

    /// The sixteen little-endian bytes of one instruction word.
    pub fn get_u8_array(data: u128) -> (r: Vec<u8>)
        ensures
            r@ == le_bytes_of_u128(data),
    {
        u128_to_le_bytes(data)
    }

    /// Compiles a program against the handler functions the loaded plugins
    /// export.  On success the image holds every literal from offset zero
    /// and one 16-byte slot per instruction from `start_address` on, and
    /// `memory_address` is the first free byte; compilation fails exactly
    /// when something does not fit, a plugin opcode has no value, or a
    /// plugin opcode's handler is missing.
    pub fn compile(&mut self, program: Program, handlers: &Vec<String>) -> (r: Result<
        (),
        String,
    >)
        ensures
            ({
                let hs = handler_views(handlers@);
                let missing = missing_msg_acc(program.instructions@, hs, Seq::empty());
                match r {
                    Ok(_) => compile_ok(program, hs) && compiled_as(*final(self), program),
                    Err(e) => !compile_ok(program, hs) && (match compile_model(program) {
                        Some(_) => compiled_as(*final(self), program) && e@ == missing,
                        None => e@ == "Out of memory"@ || e@
                            == "Plugin value is not an address or name"@ || e@
                            == "Label address does not fit in memory"@,
                    }),
                }
            }),
    {
        let ghost hs = handler_views(handlers@);
        let mut err_msg = String::new();
        let mut k: usize = 0;
        proof {
            assert(program.instructions@.skip(0) =~= program.instructions@);
            assert(err_msg@ =~= Seq::<char>::empty());
        }
        while k < program.instructions.len()
            invariant
                k <= program.instructions@.len(),
                missing_msg_acc(program.instructions@, hs, Seq::empty()) == missing_msg_acc(
                    program.instructions@.skip(k as int),
                    hs,
                    err_msg@,
                ),
                hs == handler_views(handlers@),
            decreases program.instructions@.len() - k,
        {
            let ghost rem = program.instructions@.skip(k as int);
            proof {
                assert(rem[0] == program.instructions@[k as int]);
                assert(rem.drop_first() =~= program.instructions@.skip(k as int + 1));
            }
            match &program.instructions[k].opcode {
                Opcode::Plugin(v) => {
                    let lower_name = plugin_value_lower(v);
                    if handlers.len() == 0 {
                        err_msg.append("No plugins found for handling opcode: `");
                        err_msg.append(lower_name.as_str());
                        err_msg.append("`. ");
                    } else {
                        let mut handler = String::from_str("handle_");
                        handler.append(lower_name.as_str());
                        if !contains_string(handlers, handler.as_str()) {
                            err_msg.append("No plugin found for handling opcode: `");
                            err_msg.append(lower_name.as_str());
                            err_msg.append("`. ");
                        }
                    }
                },
                _ => {},
            }
            k = k + 1;
        }
        proof {
            assert(program.instructions@.skip(program.instructions@.len() as int)
                =~= Seq::<Instruction>::empty());
        }
        let (base, memory) = match Self::remap(&program) {
            Ok(t) => t,
            Err(e) => {
                return Err(e);
            },
        };
        self.plugins = program.plugins;
        self.program = memory.raw();
        self.start_address = base;
        self.memory_address = memory.address();
        if err_msg.as_str().unicode_len() > 0 {
            return Err(err_msg);
        }
        proof {
            assert(err_msg@ =~= Seq::<char>::empty());
        }
        Ok(())
    }

    /// Lays the program out in a fresh memory region: the allocation
    /// passes, then one slot per instruction; gives back the start address
    /// and the filled region.
    fn remap(program: &Program) -> (r: Result<(usize, Memory), String>)
        ensures
            match r {
                Ok(t) => compile_model(*program) matches Some(out) && t.0 == out.start
                    && out.full.len() <= MAX_MEMORY_SIZE && t.1.pointer == out.full.len()
                    && t.1.data@.len() == MAX_MEMORY_SIZE
                    && t.1.data@.subrange(0, out.full.len() as int) == out.full && (forall|j: int|
                    out.full.len() <= j < MAX_MEMORY_SIZE ==> t.1.data@[j] == 0),
                Err(e) => compile_model(*program) is None && (e@ == "Out of memory"@ || e@
                    == "Plugin value is not an address or name"@ || e@
                    == "Label address does not fit in memory"@),
            },
    {
        let mut memory = Memory::new();
        let mut literal_list = LiteralTable::new();
        let ghost st0 = AllocState { table: Seq::empty(), mem: Seq::empty() };
        proof {
            assert(literal_list@ =~= st0.table);
            assert(memory.data@.subrange(0, 0) =~= st0.mem);
            assert(program.labels@.skip(0) =~= program.labels@);
        }
        let mut i: usize = 0;
        while i < program.labels.list.len()
            invariant
                i <= program.labels@.len(),
                program.labels@.len() == program.labels.list@.len(),
                memory.data@.len() == MAX_MEMORY_SIZE,
                memory.pointer <= MAX_MEMORY_SIZE,
                st0 == (AllocState { table: Seq::<(Seq<char>, usize)>::empty(), mem: Seq::<u8>::empty() }),
                forall|j: int| memory.pointer <= j < MAX_MEMORY_SIZE ==> memory.data@[j] == 0,
                alloc_labels(program.labels@, st0) == alloc_labels(
                    program.labels@.skip(i as int),
                    (AllocState {
                        table: literal_list@,
                        mem: memory.data@.subrange(0, memory.pointer as int),
                    }),
                ),
            decreases program.labels@.len() - i,
        {
            let ghost rem = program.labels@.skip(i as int);
            let ghost stnow = AllocState {
                table: literal_list@,
                mem: memory.data@.subrange(0, memory.pointer as int),
            };
            proof {
                assert(rem[0] == program.labels@[i as int]);
                assert(rem.drop_first() =~= program.labels@.skip(i as int + 1));
            }
            let label = program.labels.list[i].0.clone();
            if literal_list.contains(label.as_str()) {
                i = i + 1;
                continue ;
            }
            match &program.labels.list[i].1 {
                crate::parser::program::LabelValue::Literal(value) => {
                    let bytes = value.as_str().as_bytes();
                    if bytes.len() >= MAX_MEMORY_SIZE - memory.address() {
                        return Err(String::from_str("Out of memory"));
                    }
                    let address = memory.push(bytes, true);
                    literal_list.insert(label, address);
                    proof {
                        assert(memory.data@.subrange(0, memory.pointer as int) =~= stnow.mem
                            + bytes@ + seq![0u8]);
                    }
                },
                crate::parser::program::LabelValue::Address(address) => {
                    if *address > usize::MAX / 16 {
                        return Err(String::from_str("Label address does not fit in memory"));
                    }
                    literal_list.insert(label, *address * 16);
                    proof {
                        assert(memory.data@.subrange(0, memory.pointer as int) =~= stnow.mem);
                    }
                },
            }
            i = i + 1;
        }
        proof {
            assert(program.labels@.skip(program.labels@.len() as int) =~= Seq::<
                (Seq<char>, LabelValueView),
            >::empty());
        }
        let ghost st1 = AllocState {
            table: literal_list@,
            mem: memory.data@.subrange(0, memory.pointer as int),
        };
        proof {
            assert(program.instructions@.skip(0) =~= program.instructions@);
        }
        let mut i: usize = 0;
        while i < program.instructions.len()
            invariant
                i <= program.instructions@.len(),
                memory.data@.len() == MAX_MEMORY_SIZE,
                memory.pointer <= MAX_MEMORY_SIZE,
                forall|j: int| memory.pointer <= j < MAX_MEMORY_SIZE ==> memory.data@[j] == 0,
                st0 == (AllocState { table: Seq::<(Seq<char>, usize)>::empty(), mem: Seq::<u8>::empty() }),
                alloc_labels(program.labels@, st0) == Some(st1),
                alloc_plugin_names(program.instructions@, st1) == alloc_plugin_names(
                    program.instructions@.skip(i as int),
                    (AllocState {
                        table: literal_list@,
                        mem: memory.data@.subrange(0, memory.pointer as int),
                    }),
                ),
            decreases program.instructions@.len() - i,
        {
            let ghost rem = program.instructions@.skip(i as int);
            let ghost stnow = AllocState {
                table: literal_list@,
                mem: memory.data@.subrange(0, memory.pointer as int),
            };
            proof {
                assert(rem[0] == program.instructions@[i as int]);
                assert(rem.drop_first() =~= program.instructions@.skip(i as int + 1));
            }
            match &program.instructions[i].opcode {
                Opcode::Plugin(PluginValue::Name(name)) => {
                    if !literal_list.contains(name.as_str()) {
                        let bytes = name.as_str().as_bytes();
                        if bytes.len() >= MAX_MEMORY_SIZE - memory.address() {
                            return Err(String::from_str("Out of memory"));
                        }
                        let address = memory.push(bytes, true);
                        literal_list.insert(name.clone(), address);
                        proof {
                            assert(memory.data@.subrange(0, memory.pointer as int) =~= stnow.mem
                                + bytes@ + seq![0u8]);
                        }
                    }
                },
                _ => {},
            }
            i = i + 1;
        }
        proof {
            assert(program.instructions@.skip(program.instructions@.len() as int) =~= Seq::<
                Instruction,
            >::empty());
        }
        let ghost st2 = AllocState {
            table: literal_list@,
            mem: memory.data@.subrange(0, memory.pointer as int),
        };
        proof {
            assert(program.instructions@.skip(0) =~= program.instructions@);
        }
        let start_address = memory.address();
        let mut i: usize = 0;
        while i < program.instructions.len()
            invariant
                i <= program.instructions@.len(),
                memory.data@.len() == MAX_MEMORY_SIZE,
                memory.pointer <= MAX_MEMORY_SIZE,
                literal_list@ == st2.table,
                forall|j: int| memory.pointer <= j < MAX_MEMORY_SIZE ==> memory.data@[j] == 0,
                st0 == (AllocState { table: Seq::<(Seq<char>, usize)>::empty(), mem: Seq::<u8>::empty() }),
                alloc_labels(program.labels@, st0) == Some(st1),
                alloc_plugin_names(program.instructions@, st1) == Some(st2),
                st2.mem.len() <= MAX_MEMORY_SIZE,
                emit_acc(program.instructions@, st2.table, st2.mem) == emit_acc(
                    program.instructions@.skip(i as int),
                    st2.table,
                    memory.data@.subrange(0, memory.pointer as int),
                ),
            decreases program.instructions@.len() - i,
        {
            let ghost rem = program.instructions@.skip(i as int);
            let ghost memnow = memory.data@.subrange(0, memory.pointer as int);
            proof {
                assert(rem[0] == program.instructions@[i as int]);
                assert(rem.drop_first() =~= program.instructions@.skip(i as int + 1));
            }
            let ins = &program.instructions[i];
            let unset = match &ins.opcode {
                Opcode::Plugin(PluginValue::Unset) => true,
                _ => false,
            };
            if unset {
                return Err(String::from_str("Plugin value is not an address or name"));
            }
            let resolvable = match &ins.opcode {
                Opcode::Plugin(PluginValue::Name(name)) => literal_list.contains(name.as_str()),
                _ => true,
            };
            if !resolvable {
                return Err(String::from_str("Plugin value is not an address or name"));
            }
            if MAX_MEMORY_SIZE - memory.address() < 16 {
                return Err(String::from_str("Out of memory"));
            }
            let encoded = ins.encode(&literal_list);
            let bytes = u128_to_le_bytes(encoded);
            memory.push(bytes.as_slice(), false);
            proof {
                assert(memory.data@.subrange(0, memory.pointer as int) =~= memnow
                    + le_bytes_of_u128(rem[0].spec_encode(st2.table)));
            }
            i = i + 1;
        }
        proof {
            assert(program.instructions@.skip(program.instructions@.len() as int) =~= Seq::<
                Instruction,
            >::empty());
        }
        Ok((start_address, memory))
    }
}

/// What a compiled program's fields hold after a successful layout pass.
pub open spec fn compiled_as(c: CompiledProgram, p: Program) -> bool {
    compile_model(p) matches Some(out) && {
        &&& c.start_address == out.start
        &&& out.full.len() <= MAX_MEMORY_SIZE
        &&& c.memory_address == out.full.len()
        &&& c.program@.len() == MAX_MEMORY_SIZE
        &&& c.program@.subrange(0, out.full.len() as int) == out.full
        &&& forall|j: int| out.full.len() <= j < MAX_MEMORY_SIZE ==> c.program@[j] == 0
        &&& c.plugins == p.plugins
    }
}

/// The lowercased display text of a plugin value.
fn plugin_value_lower(v: &PluginValue) -> (r: String)
    ensures
        r@ == plugin_display_lower(*v),
{
    match v {
        PluginValue::Name(n) => to_ascii_lower(n.as_str()),
        PluginValue::Address(a) => u64_to_dec(*a as u64),
        PluginValue::Unset => {
            let s = String::from_str("none");
            s
        },
    }
}

/// Whether the list holds exactly the given text.
fn contains_string(handlers: &Vec<String>, h: &str) -> (r: bool)
    ensures
        r == handlers_contain(handler_views(handlers@), h@),
{
    let mut j: usize = 0;
    while j < handlers.len()
        invariant
            j <= handlers@.len(),
            forall|x: int| 0 <= x < j ==> handler_views(handlers@)[x] != h@,
        decreases handlers@.len() - j,
    {
        if str_eq(handlers[j].as_str(), h) {
            proof {
                assert(handler_views(handlers@)[j as int] == h@);
            }
            return true;
        }
        j = j + 1;
    }
    false
}

} // verus!
