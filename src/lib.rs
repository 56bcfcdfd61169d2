//! Singly linked stacks with owned chains of boxed nodes, their iterators,
//! and a small binary search tree.

pub mod stack_model;
pub mod stupid_stack;
pub mod okay_stack;
pub mod binary_tree;
