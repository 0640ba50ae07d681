//! Context-relative identity for typed declaration nodes.

pub mod constant;
pub mod context;
pub mod decl_engine;
pub mod engines;
pub mod expression;
pub mod laws;
pub mod handler;
pub mod hasher;
pub mod language;
pub mod type_system;

pub use constant::TyConstantDecl;
pub use context::TypeCheckContext;
pub use decl_engine::{DeclEngine, DeclId, DeclInfo, DeclMapping};
pub use engines::Engines;
pub use expression::{TyDecl, TyExpression, TyExpressionVariant};
pub use handler::{CompileError, ErrorEmitted, Handler};
pub use hasher::FieldHasher;
pub use language::{Attribute, CallPath, Ident, Span, Visibility};
pub use type_system::{TypeArgument, TypeEngine, TypeId, TypeInfo, TypeSubstMap};
