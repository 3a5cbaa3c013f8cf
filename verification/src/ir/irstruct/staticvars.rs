//! Static variables: values that are known when compiling, and strings that
//! live in a constant global.

use vstd::prelude::*;
use std::rc::Rc;
use crate::commons::err::{PositionlessError, PositionlessResult, fails_with};
use crate::errors::errors::IR_STATIC_VAR_WRONG_OP;
use crate::ir::backend::{Backend, Instr, ValueHandle};
use crate::ir::types::typing::IRType;
use crate::ir::values::IRNewValue;
use vstd::string::StringSliceAdditionalSpecFns;

verus! {

/// What a static variable stands for.
#[derive(Debug, Clone, Copy, PartialEq, Eq, Structural)]
pub enum StaticContent {
    /// A value that every use is replaced by.
    Value(ValueHandle),
    /// The address of a constant global that holds a string.
    Text(ValueHandle),
}

/// A static variable of the module.
pub struct IRStaticVariable {
    pub content: StaticContent,
    pub t: Rc<IRType>,
    pub name: String,
}

impl IRStaticVariable {
    /// What the variable stands for.
    pub open spec fn spec_content(&self) -> StaticContent {
        self.content
    }

    /// A string held in a constant global of the module.
    pub fn from_str<'ctx>(backend: &mut Backend<'ctx>, str: &str, name: String, t: Rc<IRType>) -> (r:
        PositionlessResult<IRStaticVariable>)
        ensures
            r matches Ok(v) && v.t == t && v.name == name && v.spec_content() is Text && final(backend).built(
                old(backend),
                Instr::GlobalString {
                    len: str.spec_bytes().len() as usize,
                    dest: v.spec_content()->Text_0,
                },
            ),
    {
        let global = backend.global_string(str, name.as_str());
        Ok(IRStaticVariable { content: StaticContent::Text(global), t, name })
    }

    /// A value that is known when compiling.
    pub fn from_val(name: String, t: Rc<IRType>, val: IRNewValue) -> (r: PositionlessResult<
        IRStaticVariable,
    >)
        ensures
            r matches Ok(v) && v.t == t && v.name == name && v.spec_content()
                == StaticContent::Value(val.value),
    {
        Ok(IRStaticVariable { content: StaticContent::Value(val.obtain()), t, name })
    }

    /// Whether every use of the variable can be replaced by its value.
    pub fn is_compiletime_replaceable(&self) -> (r: bool)
        ensures
            r == (self.spec_content() is Value),
    {
        match self.content {
            StaticContent::Value(_) => true,
            StaticContent::Text(_) => false,
        }
    }

    /// The variable as a value: its value, or the address of its string.
    pub fn as_val(&self) -> (r: PositionlessResult<ValueHandle>)
        ensures
            r == Ok::<ValueHandle, PositionlessError>(
                match self.spec_content() {
                    StaticContent::Value(v) => v,
                    StaticContent::Text(v) => v,
                },
            ),
    {
        match self.content {
            StaticContent::Value(v) => Ok(v),
            StaticContent::Text(v) => Ok(v),
        }
    }

    /// The address of the variable's string. A variable that holds a value has
    /// none.
    pub fn as_string_ref(&self) -> (r: PositionlessResult<ValueHandle>)
        ensures
            match self.spec_content() {
                StaticContent::Value(_) => fails_with(r, IR_STATIC_VAR_WRONG_OP),
                StaticContent::Text(v) => r == Ok::<ValueHandle, PositionlessError>(v),
            },
    {
        match self.content {
            StaticContent::Value(_) => Err(PositionlessError::with_message(IR_STATIC_VAR_WRONG_OP)),
            StaticContent::Text(v) => Ok(v),
        }
    }
}

} // verus!
