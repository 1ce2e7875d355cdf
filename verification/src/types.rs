//! The types of the declaration model under one roof.

pub use crate::model::{
    Config, EnumField, EnumIndex, Enumerator, Field, FieldType, FileDescriptor, Frequency, Message,
    MessageIndex, OneOf, RpcFunctionDeclaration, RpcService, Syntax,
};
