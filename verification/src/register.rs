use vstd::prelude::*;

verus! {

/// The elementwise arithmetic operators that can be built by name.
#[derive(Clone, Copy, Debug, PartialEq, Eq, Structural)]
pub enum MathOp {
    /// Absolute value.
    Abs,
    /// Sum of two tensors.
    Add,
    /// Quotient of two tensors.
    Div,
    /// Product of two tensors, element by element.
    Mul,
    /// Reciprocal of the square root.
    Rsqrt,
    /// Difference of two tensors.
    Sub,
}

/// A register of operators by name. Inserting under a name that is already
/// there replaces the operator.
#[derive(Clone, Debug)]
pub struct OpRegister {
    entries: Vec<(String, MathOp)>,
}

/// The map that a list of insertions builds: a later insertion under the same
/// name wins.
pub open spec fn inserted(entries: Seq<(String, MathOp)>) -> Map<Seq<char>, MathOp>
    decreases entries.len(),
{
    if entries.len() == 0 {
        Map::empty()
    } else {
        inserted(entries.drop_last()).insert(entries.last().0@, entries.last().1)
    }
}

impl View for OpRegister {
    type V = Map<Seq<char>, MathOp>;

    closed spec fn view(&self) -> Map<Seq<char>, MathOp> {
        inserted(self.entries@)
    }
}

impl OpRegister {
    /// An empty register.
    pub fn new() -> (reg: OpRegister)
        ensures
            reg@ == Map::<Seq<char>, MathOp>::empty(),
    {
        OpRegister { entries: Vec::new() }
    }

    /// Registers `op` under `name`.
    pub fn insert(&mut self, name: &str, op: MathOp)
        ensures
            final(self)@ == old(self)@.insert(name@, op),
    {
        self.entries.push((name.to_owned(), op));
        proof {
            assert(self.entries@.drop_last() =~= old(self).entries@);
        }
    }

    /// The operator registered under `name`, if there is one.
    pub fn get(&self, name: &str) -> (found: Option<MathOp>)
        ensures
            found is Some <==> self@.contains_key(name@),
            found matches Some(op) ==> self@[name@] == op,
    {
        let key = name.to_owned();
        let mut i: usize = self.entries.len();
        proof {
            assert(self.entries@.take(i as int) =~= self.entries@);
        }
        while i > 0
            invariant
                i <= self.entries@.len(),
                key@ == name@,
                self@.contains_key(name@) <==> inserted(self.entries@.take(i as int)).contains_key(
                    name@,
                ),
                self@.contains_key(name@) ==> self@[name@] == inserted(
                    self.entries@.take(i as int),
                )[name@],
            decreases i,
        {
            i = i - 1;
            proof {
                let upto = self.entries@.take(i as int + 1);
                assert(upto.drop_last() =~= self.entries@.take(i as int));
                assert(upto.last() == self.entries@[i as int]);
            }
            if self.entries[i].0 == key {
                return Some(self.entries[i].1);
            }
        }
        None
    }

    /// Whether an operator is registered under `name`.
    pub fn contains(&self, name: &str) -> (found: bool)
        ensures
            found == self@.contains_key(name@),
    {
        self.get(name).is_some()
    }
}

/// Registers the elementwise arithmetic operators under their names. A bias
/// addition is an addition.
pub fn register_all_ops(reg: &mut OpRegister)
    ensures
        final(reg)@ == old(reg)@.insert("Abs"@, MathOp::Abs).insert("Add"@, MathOp::Add).insert(
            "BiasAdd"@,
            MathOp::Add,
        ).insert("Div"@, MathOp::Div).insert("Mul"@, MathOp::Mul).insert(
            "Rsqrt"@,
            MathOp::Rsqrt,
        ).insert("Sub"@, MathOp::Sub),
{
    reg.insert("Abs", MathOp::Abs);
    reg.insert("Add", MathOp::Add);
    reg.insert("BiasAdd", MathOp::Add);
    reg.insert("Div", MathOp::Div);
    reg.insert("Mul", MathOp::Mul);
    reg.insert("Rsqrt", MathOp::Rsqrt);
    reg.insert("Sub", MathOp::Sub);
}

} // verus!
