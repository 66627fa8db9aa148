//! Memory operations and the global variables that they need.

use crate::ints::IntConst;
use crate::llvm::LlvmType;
use crate::lower::{emits, Emitted, LowerError};
use crate::ops::{Builder, Index, OpCode, OpView, Value};
use crate::text;
use vstd::prelude::*;

verus! {

/// Global memory.
pub const ADDRSPACE_GLOBAL: u32 = 1;

/// Memory that a block of threads shares.
pub const ADDRSPACE_SHARED: u32 = 3;

/// Constant memory.
pub const ADDRSPACE_CONSTANT: u32 = 4;

/// A store: the operands are pointer and value.
pub open spec fn store_ops(operands: Seq<Value>, align: Option<u32>) -> Emitted {
    if operands.len() != 2 {
        Err(LowerError::OperandCount)
    } else {
        Ok(seq![OpView::store(operands[1], operands[0]).aligned(align)])
    }
}

/// Lowers a store.
pub fn convert_store(b: &mut Builder, operands: &Vec<Value>, align: Option<u32>) -> (r: Result<
    (),
    LowerError,
>)
    ensures
        match store_ops(operands@, align) {
            Ok(ops) => r is Ok && final(b)@ == old(b)@ + ops,
            Err(e) => r == Err::<(), LowerError>(e) && final(b)@ == old(b)@,
        },
{
    if operands.len() != 2 {
        return Err(LowerError::OperandCount);
    }
    b.store(&operands[1], &operands[0], align);
    proof {
        assert(b@ =~= old(b)@ + store_ops(operands@, align).unwrap());
    }
    Ok(())
}

/// Lowers a load of the converted result type.
pub fn convert_load(b: &mut Builder, ptr: &Value, ty: &LlvmType, align: Option<u32>) -> (r: Value)
    ensures
        final(b)@ == old(b)@.push(OpView::load(*ptr, *ty).aligned(align)),
        r == Value::at(old(b)@.len(), *ty),
{
    b.load(ptr, ty, align)
}

/// A stack slot of one element.
pub open spec fn alloca_ops(n: nat, ty: LlvmType, align: Option<u32>) -> Seq<OpView> {
    seq![
        OpView::int_of(1, 32),
        OpView::alloca(ty, Value::at(n, LlvmType::spec_int(32))).aligned(align),
    ]
}

fn emit_alloca(b: &mut Builder, ty: &LlvmType, align: Option<u32>) -> (r: Value)
    ensures
        final(b)@ == old(b)@ + alloca_ops(old(b)@.len(), *ty, align),
        r == Value::at(old(b)@.len() + 1, LlvmType::Pointer(0)),
{
    let one = b.constant(IntConst::from_i64(1, 32));
    let r = b.alloca(ty, &one, align);
    proof {
        assert(b@ =~= old(b)@ + alloca_ops(old(b)@.len(), *ty, align));
    }
    r
}

/// Lowers a stack slot. `pointee` is the type that the result points to, if it
/// is a pointer.
pub fn convert_alloca(b: &mut Builder, pointee: &Option<LlvmType>, align: Option<u32>) -> (r:
    Result<Value, LowerError>)
    ensures
        emits(
            old(b)@,
            final(b)@,
            r,
            match *pointee {
                Some(ty) => Ok(alloca_ops(old(b)@.len(), ty, align)),
                None => Err(LowerError::WrongType),
            },
        ),
{
    match pointee {
        Some(ty) => Ok(emit_alloca(b, ty, align)),
        None => Err(LowerError::WrongType),
    }
}

/// Lowers a reference to a value: the value is stored in a stack slot.
pub fn convert_ref(b: &mut Builder, operand: &Value, align: Option<u32>) -> (r: Value)
    ensures
        final(b)@ == (old(b)@ + alloca_ops(old(b)@.len(), operand.ty, align)).push(
            OpView::store(*operand, r).aligned(align),
        ),
        r == Value::at(old(b)@.len() + 1, LlvmType::Pointer(0)),
{
    let slot = emit_alloca(b, &operand.ty, align);
    b.store(operand, &slot, align);
    slot
}

/// Pointer arithmetic in units of the pointee, or of bytes where it is unknown.
/// The address may lie outside the object.
pub open spec fn offset_ops(operands: Seq<Value>, pointee: Option<LlvmType>) -> Emitted {
    if operands.len() != 2 {
        Err(LowerError::OperandCount)
    } else {
        let elem = match pointee {
            Some(ty) => ty,
            None => LlvmType::spec_int(8),
        };
        Ok(seq![unbounded_gep(operands[0], elem, operands[1])])
    }
}

/// An address computation with one runtime index that may leave the object.
pub open spec fn unbounded_gep(ptr: Value, elem: LlvmType, index: Value) -> OpView {
    OpView::indexed(OpCode::Gep(elem, false), ptr.ty, seq![ptr], seq![Index::Dynamic(index)])
}

fn emit_unbounded_gep(b: &mut Builder, ptr: &Value, elem: &LlvmType, index: &Value) -> (r: Value)
    ensures
        final(b)@ == old(b)@.push(unbounded_gep(*ptr, *elem, *index)),
        r == Value::at(old(b)@.len(), ptr.ty),
{
    let mut indices: Vec<Index> = Vec::new();
    indices.push(Index::Dynamic(index.copy()));
    proof {
        assert(indices@ =~= seq![Index::Dynamic(*index)]);
    }
    b.gep(ptr, elem, indices, false, None)
}

/// Lowers pointer arithmetic; the operands are pointer and offset.
pub fn convert_ptr_offset(
    b: &mut Builder,
    operands: &Vec<Value>,
    pointee: &Option<LlvmType>,
) -> (r: Result<Value, LowerError>)
    ensures
        emits(old(b)@, final(b)@, r, offset_ops(operands@, *pointee)),
{
    if operands.len() != 2 {
        return Err(LowerError::OperandCount);
    }
    let elem = match pointee {
        Some(ty) => ty.copy(),
        None => LlvmType::int_type(8),
    };
    let r = emit_unbounded_gep(b, &operands[0], &elem, &operands[1]);
    proof {
        assert(b@ =~= old(b)@ + offset_ops(operands@, *pointee).unwrap());
    }
    Ok(r)
}

/// An attribute of an operation.
#[derive(PartialEq, Eq, Debug)]
pub enum Attribute<T> {
    Missing,
    /// Present, but of another kind.
    Mistyped,
    Value(T),
}

/// A global variable.
#[derive(PartialEq, Eq, Debug)]
pub struct Global {
    pub name: String,
    pub ty: LlvmType,
    pub align: Option<u64>,
    pub addrspace: u32,
    /// Whether it is defined elsewhere.
    pub external: bool,
}

/// A [`Global`] as contracts speak of it.
pub struct GlobalView {
    pub name: Seq<char>,
    pub ty: LlvmType,
    pub align: Option<u64>,
    pub addrspace: u32,
    pub external: bool,
}

impl View for Global {
    type V = GlobalView;

    open spec fn view(&self) -> GlobalView {
        GlobalView {
            name: self.name@,
            ty: self.ty,
            align: self.align,
            addrspace: self.addrspace,
            external: self.external,
        }
    }
}

/// Names of globals by key. A later entry for a key replaces an earlier one.
#[derive(PartialEq, Eq, Debug)]
pub struct NameMap {
    pub entries: Vec<(String, String)>,
}

/// The map that a list of entries stands for.
pub open spec fn names_by_key(entries: Seq<(String, String)>) -> Map<Seq<char>, Seq<char>>
    decreases entries.len(),
{
    if entries.len() == 0 {
        Map::empty()
    } else {
        names_by_key(entries.drop_last()).insert(entries.last().0@, entries.last().1@)
    }
}

impl View for NameMap {
    type V = Map<Seq<char>, Seq<char>>;

    open spec fn view(&self) -> Map<Seq<char>, Seq<char>> {
        names_by_key(self.entries@)
    }
}

impl NameMap {
    pub fn new() -> (m: NameMap)
        ensures
            m@ == Map::<Seq<char>, Seq<char>>::empty(),
    {
        NameMap { entries: Vec::new() }
    }

    pub fn get(&self, key: &str) -> (r: Option<String>)
        ensures
            match r {
                Some(name) => self@.contains_key(key@) && name@ == self@[key@],
                None => !self@.contains_key(key@),
            },
    {
        let mut i: usize = self.entries.len();
        proof {
            assert(self.entries@.take(i as int) =~= self.entries@);
        }
        while i > 0
            invariant
                i <= self.entries.len(),
                self@.contains_key(key@) == names_by_key(self.entries@.take(i as int)).contains_key(
                    key@,
                ),
                self@.contains_key(key@) ==> self@[key@] == names_by_key(
                    self.entries@.take(i as int),
                )[key@],
            decreases i,
        {
            proof {
                assert(self.entries@.take(i as int).drop_last() =~= self.entries@.take(i - 1));
            }
            i = i - 1;
            if text::is_named(&self.entries[i].0, key) {
                return Some(self.entries[i].1.clone());
            }
        }
        None
    }

    pub fn insert(&mut self, key: String, name: String)
        ensures
            final(self)@ == old(self)@.insert(key@, name@),
    {
        self.entries.push((key, name));
        proof {
            assert(self.entries@.drop_last() =~= old(self).entries@);
        }
    }
}

/// The dynamic shared memory of a kernel.
#[derive(PartialEq, Eq, Debug)]
pub struct DynamicShared {
    pub kernel: String,
    pub symbol: String,
    /// The largest alignment that any use in the kernel asks for.
    pub align: u64,
}

/// Symbol and alignment of the dynamic shared memory of a kernel, from entry `i`
/// on.
pub open spec fn dynamic_shared(entries: Seq<DynamicShared>, kernel: Seq<char>, i: int) -> Option<
    (Seq<char>, u64),
>
    decreases entries.len() - i,
{
    if i < 0 || i >= entries.len() {
        None
    } else if entries[i].kernel@ == kernel {
        Some((entries[i].symbol@, entries[i].align))
    } else {
        dynamic_shared(entries, kernel, i + 1)
    }
}

/// The global variables of a module, and the names that were given out.
#[derive(PartialEq, Eq, Debug)]
pub struct Globals {
    /// The most recent one first.
    pub list: Vec<Global>,
    pub shared: NameMap,
    pub device: NameMap,
    /// How many names of shared globals were made.
    pub shared_count: u64,
    /// How many names of device globals were made.
    pub device_count: u64,
}

/// [`Globals`] as contracts speak of it.
#[verifier::ext_equal]
pub struct GlobalsView {
    pub list: Seq<GlobalView>,
    pub shared: Map<Seq<char>, Seq<char>>,
    pub device: Map<Seq<char>, Seq<char>>,
    pub shared_count: u64,
    pub device_count: u64,
}

impl View for Globals {
    type V = GlobalsView;

    open spec fn view(&self) -> GlobalsView {
        GlobalsView {
            list: Seq::new(self.list@.len(), |i: int| self.list@[i]@),
            shared: self.shared@,
            device: self.device@,
            shared_count: self.shared_count,
            device_count: self.device_count,
        }
    }
}

impl Globals {
    pub fn new() -> (g: Globals)
        ensures
            g@ == (GlobalsView {
                list: Seq::empty(),
                shared: Map::empty(),
                device: Map::empty(),
                shared_count: 0,
                device_count: 0,
            }),
    {
        let g = Globals {
            list: Vec::new(),
            shared: NameMap::new(),
            device: NameMap::new(),
            shared_count: 0,
            device_count: 0,
        };
        proof {
            assert(g@.list =~= Seq::empty());
        }
        g
    }

    /// Adds a global at the front of the module.
    fn insert_front(&mut self, global: Global)
        ensures
            final(self)@ == (GlobalsView { list: seq![global@] + old(self)@.list, ..old(self)@ }),
    {
        self.list.insert(0, global);
        proof {
            assert(self@.list =~= seq![global@] + old(self)@.list);
        }
    }
}

/// The alignment attribute of a global; zero asks for none.
pub open spec fn requested_align(align: Option<u64>) -> Option<u64> {
    match align {
        Some(a) => if a > 0 {
            Some(a)
        } else {
            None
        },
        None => None,
    }
}

fn global_align(align: Option<u64>) -> (r: Option<u64>)
    ensures
        r == requested_align(align),
{
    match align {
        Some(a) => if a > 0 {
            Some(a)
        } else {
            None
        },
        None => None,
    }
}

/// An allocation in shared memory.
#[derive(PartialEq, Eq, Debug)]
pub struct SharedAlloc {
    /// Allocations with the same key share one global.
    pub key: Option<String>,
    pub elem: Attribute<LlvmType>,
    pub size: Attribute<u64>,
    pub align: Option<u64>,
}

/// The error for an attribute that does not hold what it should.
pub open spec fn attribute_error<T>(attribute: Attribute<T>) -> Option<LowerError> {
    match attribute {
        Attribute::Missing => Some(LowerError::MissingAttribute),
        Attribute::Mistyped => Some(LowerError::WrongType),
        Attribute::Value(_) => None,
    }
}

/// The name of the shared global with number `n`.
pub open spec fn shared_name(n: u64) -> Seq<char> {
    "__shared_mem_"@ + text::decimal(n as nat)
}

/// The name of the device global with number `n`.
pub open spec fn device_name(n: u64) -> Seq<char> {
    "__device_global_"@ + text::decimal(n as nat)
}

/// The globals after an allocation in shared memory, and the name of the one
/// allocated. A key that is known already adds nothing.
pub open spec fn shared_alloc(globals: GlobalsView, alloc: SharedAlloc) -> Result<
    (GlobalsView, Seq<char>),
    LowerError,
> {
    match (alloc.elem, alloc.size) {
        (Attribute::Value(elem), Attribute::Value(size)) => match alloc.key {
            Some(key) => if globals.shared.contains_key(key@) {
                Ok((globals, globals.shared[key@]))
            } else {
                let added = add_shared(globals, elem, size, alloc.align);
                let name = shared_name(globals.shared_count);
                Ok((GlobalsView { shared: added.shared.insert(key@, name), ..added }, name))
            },
            None => Ok(
                (
                    add_shared(globals, elem, size, alloc.align),
                    shared_name(globals.shared_count),
                ),
            ),
        },
        (Attribute::Value(_), size) => Err(attribute_error(size).unwrap()),
        (elem, _) => Err(attribute_error(elem).unwrap()),
    }
}

/// Adds a shared array under a new name.
pub open spec fn add_shared(
    globals: GlobalsView,
    elem: LlvmType,
    size: u64,
    align: Option<u64>,
) -> GlobalsView {
    GlobalsView {
        list: seq![
            GlobalView {
                name: shared_name(globals.shared_count),
                ty: LlvmType::Array(Box::new(elem), size),
                align: requested_align(align),
                addrspace: ADDRSPACE_SHARED,
                external: false,
            },
        ] + globals.list,
        shared_count: (globals.shared_count + 1) as u64,
        ..globals
    }
}

/// Creates a shared array under a new name.
fn create_shared_global(
    globals: &mut Globals,
    elem: &LlvmType,
    size: u64,
    align: Option<u64>,
) -> (r: String)
    requires
        old(globals).shared_count < u64::MAX,
    ensures
        final(globals)@ == add_shared(old(globals)@, *elem, size, align),
        r@ == shared_name(old(globals).shared_count),
{
    let count: u64 = globals.shared_count;
    let name = text::numbered("__shared_mem_", count);
    globals.shared_count = count + 1;
    globals.insert_front(
        Global {
            name: name.clone(),
            ty: LlvmType::Array(Box::new(elem.copy()), size),
            align: global_align(align),
            addrspace: ADDRSPACE_SHARED,
            external: false,
        },
    );
    name
}

/// Lowers an allocation in shared memory to the address of a global.
pub fn convert_shared_alloc_dc(b: &mut Builder, globals: &mut Globals, alloc: &SharedAlloc) -> (r:
    Result<Value, LowerError>)
    requires
        old(globals).shared_count < u64::MAX,
    ensures
        match shared_alloc(old(globals)@, *alloc) {
            Ok((after, name)) => {
                &&& final(globals)@ == after
                &&& final(b)@ == old(b)@.push(OpView::address_of(name, ADDRSPACE_SHARED))
                &&& r == Ok::<Value, LowerError>(
                    Value::at(old(b)@.len(), LlvmType::Pointer(ADDRSPACE_SHARED)),
                )
            },
            Err(e) => {
                &&& final(globals)@ == old(globals)@
                &&& final(b)@ == old(b)@
                &&& r == Err::<Value, LowerError>(e)
            },
        },
{
    let elem = match &alloc.elem {
        Attribute::Value(elem) => elem,
        Attribute::Missing => {
            return Err(LowerError::MissingAttribute);
        },
        Attribute::Mistyped => {
            return Err(LowerError::WrongType);
        },
    };
    let size: u64 = match &alloc.size {
        Attribute::Value(size) => *size,
        Attribute::Missing => {
            return Err(LowerError::MissingAttribute);
        },
        Attribute::Mistyped => {
            return Err(LowerError::WrongType);
        },
    };
    let name = match &alloc.key {
        Some(key) => match globals.shared.get(key.as_str()) {
            Some(existing) => existing,
            None => {
                let name = create_shared_global(globals, elem, size, alloc.align);
                globals.shared.insert(key.clone(), name.clone());
                name
            },
        },
        None => create_shared_global(globals, elem, size, alloc.align),
    };
    Ok(b.address_of(name.as_str(), ADDRSPACE_SHARED))
}

/// A device static.
#[derive(PartialEq, Eq, Debug)]
pub struct GlobalAlloc {
    pub key: Attribute<String>,
    pub ty: Attribute<LlvmType>,
    pub align: Option<u64>,
    /// The address space of the result, if it is a pointer.
    pub addrspace: Option<u32>,
}

/// Constant memory stays constant; everything else is global memory.
pub open spec fn static_space(addrspace: u32) -> u32 {
    if addrspace == ADDRSPACE_CONSTANT {
        ADDRSPACE_CONSTANT
    } else {
        ADDRSPACE_GLOBAL
    }
}

/// The name of a new device static. In constant memory it is the key, by which
/// the host finds it.
pub open spec fn static_name(globals: GlobalsView, key: Seq<char>, space: u32) -> Seq<char> {
    if space == ADDRSPACE_CONSTANT {
        key
    } else {
        device_name(globals.device_count)
    }
}

/// Adds a device static.
pub open spec fn add_static(
    globals: GlobalsView,
    key: Seq<char>,
    ty: LlvmType,
    align: Option<u64>,
    space: u32,
) -> GlobalsView {
    let name = static_name(globals, key, space);
    GlobalsView {
        list: seq![
            GlobalView {
                name,
                ty,
                align: requested_align(align),
                addrspace: space,
                external: false,
            },
        ] + globals.list,
        device: globals.device.insert(key, name),
        device_count: if space == ADDRSPACE_CONSTANT {
            globals.device_count
        } else {
            (globals.device_count + 1) as u64
        },
        ..globals
    }
}

/// The globals after a device static was asked for, with its name and address
/// space. A key that is known already adds nothing.
pub open spec fn global_alloc(globals: GlobalsView, alloc: GlobalAlloc) -> Result<
    (GlobalsView, Seq<char>, u32),
    LowerError,
> {
    match (alloc.key, alloc.ty, alloc.addrspace) {
        (Attribute::Value(key), Attribute::Value(ty), Some(addrspace)) => {
            let space = static_space(addrspace);
            if globals.device.contains_key(key@) {
                Ok((globals, globals.device[key@], space))
            } else if space == ADDRSPACE_CONSTANT && !text::is_identifier(key@) {
                Err(LowerError::InvalidName)
            } else {
                Ok(
                    (
                        add_static(globals, key@, ty, alloc.align, space),
                        static_name(globals, key@, space),
                        space,
                    ),
                )
            }
        },
        (Attribute::Value(_), Attribute::Value(_), None) => Err(LowerError::WrongType),
        (Attribute::Value(_), ty, _) => Err(attribute_error(ty).unwrap()),
        (key, _, _) => Err(attribute_error(key).unwrap()),
    }
}

/// Creates a device static.
fn create_device_global(
    globals: &mut Globals,
    key: &String,
    ty: &LlvmType,
    align: Option<u64>,
    space: u32,
) -> (r: Result<String, LowerError>)
    requires
        old(globals).device_count < u64::MAX,
    ensures
        if space == ADDRSPACE_CONSTANT && !text::is_identifier(key@) {
            r == Err::<String, LowerError>(LowerError::InvalidName) && final(globals)@ == old(
                globals,
            )@
        } else {
            &&& final(globals)@ == add_static(old(globals)@, key@, *ty, align, space)
            &&& r matches Ok(name) && name@ == static_name(old(globals)@, key@, space)
        },
{
    let name = if space == ADDRSPACE_CONSTANT {
        match text::identifier(key.as_str()) {
            Some(name) => name,
            None => {
                return Err(LowerError::InvalidName);
            },
        }
    } else {
        let count: u64 = globals.device_count;
        globals.device_count = count + 1;
        text::numbered("__device_global_", count)
    };
    globals.insert_front(
        Global {
            name: name.clone(),
            ty: ty.copy(),
            align: global_align(align),
            addrspace: space,
            external: false,
        },
    );
    globals.device.insert(key.clone(), name.clone());
    Ok(name)
}

/// Lowers a device static to the address of a global.
pub fn convert_global_alloc_dc(b: &mut Builder, globals: &mut Globals, alloc: &GlobalAlloc) -> (r:
    Result<Value, LowerError>)
    requires
        old(globals).device_count < u64::MAX,
    ensures
        match global_alloc(old(globals)@, *alloc) {
            Ok((after, name, space)) => {
                &&& final(globals)@ == after
                &&& final(b)@ == old(b)@.push(OpView::address_of(name, space))
                &&& r == Ok::<Value, LowerError>(
                    Value::at(old(b)@.len(), LlvmType::Pointer(space)),
                )
            },
            Err(e) => {
                &&& final(globals)@ == old(globals)@
                &&& final(b)@ == old(b)@
                &&& r == Err::<Value, LowerError>(e)
            },
        },
{
    let key = match &alloc.key {
        Attribute::Value(key) => key,
        Attribute::Missing => {
            return Err(LowerError::MissingAttribute);
        },
        Attribute::Mistyped => {
            return Err(LowerError::WrongType);
        },
    };
    let ty = match &alloc.ty {
        Attribute::Value(ty) => ty,
        Attribute::Missing => {
            return Err(LowerError::MissingAttribute);
        },
        Attribute::Mistyped => {
            return Err(LowerError::WrongType);
        },
    };
    let space: u32 = match alloc.addrspace {
        Some(space) => if space == ADDRSPACE_CONSTANT {
            ADDRSPACE_CONSTANT
        } else {
            ADDRSPACE_GLOBAL
        },
        None => {
            return Err(LowerError::WrongType);
        },
    };
    let name = match globals.device.get(key.as_str()) {
        Some(existing) => existing,
        None => match create_device_global(globals, key, ty, alloc.align, space) {
            Ok(name) => name,
            Err(e) => {
                return Err(e);
            },
        },
    };
    Ok(b.address_of(name.as_str(), space))
}

/// The key under which the dynamic shared memory of a kernel is remembered.
pub open spec fn dynamic_key(kernel: Seq<char>) -> Seq<char> {
    "__dynamic_smem_global_created_"@ + kernel
}

/// Adds the dynamic shared memory of a kernel, unless it is there.
pub open spec fn add_dynamic(
    globals: GlobalsView,
    kernel: Seq<char>,
    symbol: Seq<char>,
    align: u64,
) -> GlobalsView {
    if globals.shared.contains_key(dynamic_key(kernel)) {
        globals
    } else {
        GlobalsView {
            list: seq![
                GlobalView {
                    name: symbol,
                    ty: LlvmType::Array(Box::new(LlvmType::spec_int(8)), 0),
                    align: Some(align),
                    addrspace: ADDRSPACE_SHARED,
                    external: true,
                },
            ] + globals.list,
            shared: globals.shared.insert(dynamic_key(kernel), symbol),
            ..globals
        }
    }
}

fn find_dynamic_shared(entries: &Vec<DynamicShared>, kernel: &str) -> (r: Option<usize>)
    ensures
        match r {
            Some(i) => i < entries@.len() && dynamic_shared(entries@, kernel@, 0) == Some(
                (entries@[i as int].symbol@, entries@[i as int].align),
            ),
            None => dynamic_shared(entries@, kernel@, 0) is None,
        },
{
    let mut i: usize = 0;
    while i < entries.len()
        invariant
            i <= entries.len(),
            dynamic_shared(entries@, kernel@, 0) == dynamic_shared(entries@, kernel@, i as int),
        decreases entries.len() - i,
    {
        if text::is_named(&entries[i].kernel, kernel) {
            return Some(i);
        }
        i = i + 1;
    }
    None
}

/// Finds or creates the dynamic shared memory of a kernel.
fn get_or_create_extern_shared_global(
    globals: &mut Globals,
    kernel: &str,
    entries: &Vec<DynamicShared>,
) -> (r: Result<String, LowerError>)
    ensures
        match dynamic_shared(entries@, kernel@, 0) {
            Some((symbol, align)) => {
                &&& final(globals)@ == add_dynamic(old(globals)@, kernel@, symbol, align)
                &&& r matches Ok(name) && name@ == symbol
            },
            None => {
                &&& final(globals)@ == old(globals)@
                &&& r == Err::<String, LowerError>(LowerError::NoSharedAlignment)
            },
        },
{
    let at: usize = match find_dynamic_shared(entries, kernel) {
        Some(at) => at,
        None => {
            return Err(LowerError::NoSharedAlignment);
        },
    };
    let symbol = &entries[at].symbol;
    let key = text::joined("__dynamic_smem_global_created_", kernel);
    if globals.shared.get(key.as_str()).is_some() {
        return Ok(symbol.clone());
    }
    globals.insert_front(
        Global {
            name: symbol.clone(),
            ty: LlvmType::Array(Box::new(LlvmType::int_type(8)), 0),
            align: Some(entries[at].align),
            addrspace: ADDRSPACE_SHARED,
            external: true,
        },
    );
    globals.shared.insert(key, symbol.clone());
    Ok(symbol.clone())
}

/// The address `offset` bytes into dynamic shared memory.
pub open spec fn dynamic_addr_ops(n: nat, symbol: Seq<char>, offset: u64) -> Seq<OpView> {
    let base = Value::at(n, LlvmType::Pointer(ADDRSPACE_SHARED));
    let start = OpView::address_of(symbol, ADDRSPACE_SHARED);
    if offset > 0 {
        seq![
            start,
            OpView::int_of(offset as int, 64),
            unbounded_gep(
                base,
                LlvmType::spec_int(8),
                Value::at(n + 1, LlvmType::spec_int(64)),
            ),
        ]
    } else {
        seq![start]
    }
}

/// Lowers access to the dynamic shared memory of a kernel, which is one global
/// of unknown size for the whole kernel.
pub fn convert_extern_shared_dc(
    b: &mut Builder,
    globals: &mut Globals,
    kernel: &str,
    byte_offset: u64,
    entries: &Vec<DynamicShared>,
) -> (r: Result<Value, LowerError>)
    ensures
        match dynamic_shared(entries@, kernel@, 0) {
            Some((symbol, align)) => {
                &&& final(globals)@ == add_dynamic(old(globals)@, kernel@, symbol, align)
                &&& emits(
                    old(b)@,
                    final(b)@,
                    r,
                    Ok(dynamic_addr_ops(old(b)@.len(), symbol, byte_offset)),
                )
            },
            None => {
                &&& final(globals)@ == old(globals)@
                &&& final(b)@ == old(b)@
                &&& r == Err::<Value, LowerError>(LowerError::NoSharedAlignment)
            },
        },
{
    let symbol = match get_or_create_extern_shared_global(globals, kernel, entries) {
        Ok(symbol) => symbol,
        Err(e) => {
            return Err(e);
        },
    };
    let base = b.address_of(symbol.as_str(), ADDRSPACE_SHARED);
    let r = if byte_offset > 0 {
        let offset = b.constant(IntConst::from_u64(byte_offset, 64));
        emit_unbounded_gep(b, &base, &LlvmType::int_type(8), &offset)
    } else {
        base
    };
    proof {
        assert(b@ =~= old(b)@ + dynamic_addr_ops(old(b)@.len(), symbol@, byte_offset));
    }
    Ok(r)
}

/// Allocations with the same key share one global: the second one finds the name
/// of the first and adds nothing, whatever it asks for.
pub proof fn law_shared_key(globals: GlobalsView, first: SharedAlloc, second: SharedAlloc)
    requires
        first.key matches Some(key) && second.key matches Some(again) && key@ == again@,
        second.elem is Value,
        second.size is Value,
    ensures
        shared_alloc(globals, first) matches Ok((after, name)) ==> shared_alloc(after, second)
            == Ok::<(GlobalsView, Seq<char>), LowerError>((after, name)),
{
}

/// A device static is created once.
pub proof fn law_static_key(globals: GlobalsView, first: GlobalAlloc, second: GlobalAlloc)
    requires
        first.key matches Attribute::Value(key) && second.key matches Attribute::Value(again)
            && key@ == again@,
        second.ty is Value,
        second.addrspace is Some,
    ensures
        global_alloc(globals, first) matches Ok((after, name, _)) ==> (global_alloc(
            after,
            second,
        ) matches Ok((same, found, _)) && same == after && found == name),
{
}

/// Names given out under different numbers differ, and no shared global has the
/// name of a device global.
pub proof fn law_names_distinct(m: u64, n: u64)
    ensures
        shared_name(m) == shared_name(n) <==> m == n,
        device_name(m) == device_name(n) <==> m == n,
        shared_name(m) != device_name(n),
{
    reveal_strlit("__shared_mem_");
    reveal_strlit("__device_global_");
    let (sm, sn) = (shared_name(m), shared_name(n));
    let (dm, dn) = (device_name(m), device_name(n));
    assert(sm.skip(13) =~= text::decimal(m as nat));
    assert(sn.skip(13) =~= text::decimal(n as nat));
    assert(dm.skip(16) =~= text::decimal(m as nat));
    assert(dn.skip(16) =~= text::decimal(n as nat));
    if text::decimal(m as nat) == text::decimal(n as nat) {
        text::lemma_decimal_injective(m as nat, n as nat);
    }
    assert(sm[2] == 's');
    assert(dn[2] == 'd');
}

/// Every name that was given out for a shared array carries a number below the
/// count, so the next one is new.
pub open spec fn shared_names_counted(globals: GlobalsView) -> bool {
    forall|n: u64, i: int|
        #![trigger shared_name(n), globals.list[i]]
        0 <= i < globals.list.len() && globals.list[i].name == shared_name(n) ==> n
            < globals.shared_count
}

/// As long as no other global takes such a name, shared arrays have names of
/// their own.
pub proof fn law_shared_fresh(globals: GlobalsView, alloc: SharedAlloc)
    requires
        globals.shared_count < u64::MAX,
        shared_names_counted(globals),
    ensures
        shared_alloc(globals, alloc) matches Ok((after, name)) ==> shared_names_counted(after)
            && (after.list.len() > globals.list.len() ==> forall|i: int|
            0 <= i < globals.list.len() ==> (#[trigger] globals.list[i]).name != name),
{
    if let Ok((after, name)) = shared_alloc(globals, alloc) {
        if after.list.len() > globals.list.len() {
            assert(name == shared_name(globals.shared_count));
            assert forall|i: int| 0 <= i < globals.list.len() implies (
            #[trigger] globals.list[i]).name != name by {
                if globals.list[i].name == name {
                    assert(globals.list[i].name == shared_name(globals.shared_count));
                }
            }
            assert forall|n: u64, i: int|
                #![trigger shared_name(n), after.list[i]]
                0 <= i < after.list.len() && after.list[i].name == shared_name(n) implies n
                < after.shared_count by {
                if i == 0 {
                    law_names_distinct(n, globals.shared_count);
                } else {
                    assert(after.list[i] == globals.list[i - 1]);
                }
            }
        }
    }
}

} // verus!
