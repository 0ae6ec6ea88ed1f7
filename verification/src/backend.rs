//! CPU backend
//!
//! Walks a graph's execution order and evaluates the nodes that are not
//! leaves, each from the tensors computed for its sources.

use vstd::prelude::*;
use crate::context::Context;
use crate::graph::{ComputeGraph, GraphNode, GraphView, NodeView};
use crate::tensor::{OpType, TensorType};
use crate::text::{decimal, push_decimal};

verus! {

/// CPU backend errors
#[derive(Debug)]
pub enum CpuBackendError {
    ComputeError(String),
    UnsupportedOp(OpType),
    InvalidData,
    ShapeMismatch(String),
    TypeMismatch { expected: TensorType, got: TensorType },
}

/// A backend error with its messages as text.
pub enum CpuBackendErrorView {
    ComputeError(Seq<char>),
    UnsupportedOp(OpType),
    InvalidData,
    ShapeMismatch(Seq<char>),
    TypeMismatch { expected: TensorType, got: TensorType },
}

impl View for CpuBackendError {
    type V = CpuBackendErrorView;

    open spec fn view(&self) -> CpuBackendErrorView {
        match self {
            CpuBackendError::ComputeError(m) => CpuBackendErrorView::ComputeError(m@),
            CpuBackendError::UnsupportedOp(op) => CpuBackendErrorView::UnsupportedOp(*op),
            CpuBackendError::InvalidData => CpuBackendErrorView::InvalidData,
            CpuBackendError::ShapeMismatch(m) => CpuBackendErrorView::ShapeMismatch(m@),
            CpuBackendError::TypeMismatch { expected, got } => CpuBackendErrorView::TypeMismatch {
                expected: *expected,
                got: *got,
            },
        }
    }
}

pub open spec fn backend_result(r: Result<(), CpuBackendError>) -> Result<(), CpuBackendErrorView> {
    match r {
        Ok(()) => Ok(()),
        Err(e) => Err(e@),
    }
}

/// The number of logical CPUs, as `num_cpus::get` reports it; its
/// documentation promises at least one. Which number comes back depends on
/// the machine, so nothing more is stated.
#[verifier::external_body]
fn available_cpus() -> (r: usize)
    ensures
        r >= 1,
{
    num_cpus::get()
}

/// CPU backend for executing computation graphs
pub struct CpuBackend {
    /// Number of threads to use
    num_threads: usize,
}

/// The name a computed operation goes by in error messages.
pub open spec fn op_label(op: OpType) -> Seq<char> {
    match op {
        OpType::Add => "Add"@,
        OpType::Mul => "Mul"@,
        OpType::MulMat => "MulMat"@,
        OpType::Sub => "Sub"@,
        OpType::Div => "Div"@,
        OpType::Silu => "Silu"@,
        OpType::RmsNorm => "RmsNorm"@,
        OpType::SoftMax => "SoftMax"@,
        _ => "Transpose"@,
    }
}

pub open spec fn is_binary_kernel(op: OpType) -> bool {
    op is Add || op is Mul || op is MulMat || op is Sub || op is Div
}

pub open spec fn is_unary_kernel(op: OpType) -> bool {
    op is Silu || op is RmsNorm || op is SoftMax || op is Transpose
}

/// How evaluating a node fails when none of its sources has been computed.
pub open spec fn node_failure(node: NodeView) -> CpuBackendErrorView {
    let op = node.op;
    if op is NoOp {
        CpuBackendErrorView::ComputeError("Cannot compute leaf node"@)
    } else if is_binary_kernel(op) {
        if node.sources.len() != 2 {
            CpuBackendErrorView::ComputeError(op_label(op) + " requires 2 sources"@)
        } else {
            CpuBackendErrorView::ComputeError("Source 0 not found"@)
        }
    } else if is_unary_kernel(op) {
        if node.sources.len() != 1 {
            CpuBackendErrorView::ComputeError(op_label(op) + " requires 1 source"@)
        } else {
            CpuBackendErrorView::ComputeError("Source 0 not found"@)
        }
    } else {
        CpuBackendErrorView::UnsupportedOp(op)
    }
}

/// Running the execution order from position `k`: leaves are skipped, an
/// index naming no node is reported, and the first node that is not a leaf
/// fails, since no tensor has been computed for its sources before it.
pub open spec fn spec_compute_from(g: GraphView, k: int) -> Result<(), CpuBackendErrorView>
    decreases g.order.len() - k,
{
    if k >= g.order.len() || k < 0 {
        Ok(())
    } else {
        let v = g.order[k];
        if v >= g.nodes.len() {
            Err(
                CpuBackendErrorView::ComputeError("Node "@ + decimal(v as nat) + " not found"@),
            )
        } else if g.nodes[v as int].is_leaf {
            spec_compute_from(g, k + 1)
        } else {
            Err(node_failure(g.nodes[v as int]))
        }
    }
}

impl CpuBackend {
    pub closed spec fn threads(&self) -> usize {
        self.num_threads
    }

    /// Create a new CPU backend, with one thread per available CPU
    pub fn new() -> (r: Self)
        ensures
            r.threads() >= 1,
    {
        Self { num_threads: available_cpus() }
    }

    /// Create a CPU backend with specific number of threads (0: one per available CPU)
    pub fn with_threads(num_threads: usize) -> (r: Self)
        ensures
            num_threads != 0 ==> r.threads() == num_threads,
            r.threads() >= 1,
    {
        Self {
            num_threads: if num_threads == 0 {
                available_cpus()
            } else {
                num_threads
            },
        }
    }

    /// Get the number of threads
    pub fn num_threads(&self) -> (r: usize)
        ensures
            r == self.threads(),
    {
        self.num_threads
    }

    /// Execute a computation graph
    ///
    /// Leaves are inputs and are skipped. A node is evaluated from the
    /// tensors computed for its sources. A graph records operations and
    /// edges but holds no tensors, so a leaf contributes no value; the first
    /// node that is not a leaf finds none for its sources and the run stops
    /// there.
    /// The context is left as it was.
    pub fn compute_graph(&self, graph: &ComputeGraph, ctx: &mut Context) -> (r: Result<
        (),
        CpuBackendError,
    >)
        ensures
            backend_result(r) == spec_compute_from(graph@, 0),
            final(ctx)@ == old(ctx)@,
    {
        // Get execution order
        let order = graph.execution_order();
        let mut k: usize = 0;
        while k < order.len()
            invariant
                order@ == graph@.order,
                k <= order@.len(),
                spec_compute_from(graph@, 0) == spec_compute_from(graph@, k as int),
            decreases order@.len() - k,
        {
            let node_idx = order[k];
            let node = match graph.get_node(node_idx) {
                Some(n) => n,
                None => {
                    let mut msg = String::from_str("Node ");
                    push_decimal(&mut msg, node_idx);
                    msg.append(" not found");
                    return Err(CpuBackendError::ComputeError(msg));
                },
            };
            // Skip leaf nodes (they're inputs, already have data)
            if node.is_leaf {
                k = k + 1;
                continue;
            }
            // Execute the operation

            return Err(self.compute_node(node));
        }
        Ok(())
    }

    /// How computing `node` fails when no tensor has been computed for any
    /// of its sources: leaves cannot be computed, each kernel checks the
    /// number of its sources and then looks up the first one.
    fn compute_node(&self, node: &GraphNode) -> (e: CpuBackendError)
        ensures
            e@ == node_failure(node@),
    {
        match node.op {
            OpType::NoOp => {
                // Leaf node - should not be called
                CpuBackendError::ComputeError(String::from_str("Cannot compute leaf node"))
            },
            OpType::Add | OpType::Mul | OpType::MulMat | OpType::Sub | OpType::Div => {
                if node.sources.len() != 2 {
                    let mut msg = op_name(node.op);
                    msg.append(" requires 2 sources");
                    return CpuBackendError::ComputeError(msg);
                }
                CpuBackendError::ComputeError(String::from_str("Source 0 not found"))
            },
            OpType::Silu | OpType::RmsNorm | OpType::SoftMax | OpType::Transpose => {
                if node.sources.len() != 1 {
                    let mut msg = op_name(node.op);
                    msg.append(" requires 1 source");
                    return CpuBackendError::ComputeError(msg);
                }
                CpuBackendError::ComputeError(String::from_str("Source 0 not found"))
            },
            _ => CpuBackendError::UnsupportedOp(node.op),
        }
    }
}

fn op_name(op: OpType) -> (r: String)
    ensures
        r@ == op_label(op),
{
    match op {
        OpType::Add => String::from_str("Add"),
        OpType::Mul => String::from_str("Mul"),
        OpType::MulMat => String::from_str("MulMat"),
        OpType::Sub => String::from_str("Sub"),
        OpType::Div => String::from_str("Div"),
        OpType::Silu => String::from_str("Silu"),
        OpType::RmsNorm => String::from_str("RmsNorm"),
        OpType::SoftMax => String::from_str("SoftMax"),
        _ => String::from_str("Transpose"),
    }
}

impl Default for CpuBackend {
    fn default() -> (r: Self)
        ensures
            r.threads() >= 1,
    {
        Self::new()
    }
}

} // verus!
