//! A bridge between multi-threaded native code and a single-threaded
//! interpreter: values and their conversion to and from native data, the
//! queue that carries work to the interpreter's owning thread, host objects
//! with their dispatch table and promises, and native event listeners.

pub mod codec;
pub mod de;
pub mod dispatch;
pub mod event;
pub mod example;
pub mod host_object;
pub mod keys;
pub mod names;
pub mod native;
pub mod promise;
pub mod runtime;
pub mod ser;
pub mod value;

pub use de::{decode, JsiDeserializeError, JsiDeserializer};
pub use dispatch::{DispatchError, Dispatcher, LoopAction};
pub use event::{EmitPlan, EventError, EventKey, EventKeys, EventSubscription, HostEventEmitter, HostEventKey};
pub use example::ExampleHostObject;
pub use host_object::{AsyncCall, AsyncStart, CallError, HostObjectTable, Member, MemberKind, PropertyTarget, SetterTarget};
pub use native::{NativeValue, Shape};
pub use promise::{ExecutorError, PromiseBridge, PromiseExecutor, PromiseState, Settlement};
pub use runtime::{RuntimeClone, RuntimeDisplay, RuntimeEq, RuntimeHandle};
pub use ser::{encode, JsiSerializeError, JsiSerializer};
pub use value::{JsiValue, ValueKind};
