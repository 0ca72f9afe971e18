# mlinference

A machine-learning inference service for wasmCloud: an HTTP front end that
runs images and tensors through pre-processing, a model and
post-processing, a web page in front of it, the message interfaces of the
pre- and post-processing services, and a provider that loads models and
runs them on a TensorFlow Lite engine.

The decisions and encodings of the service are a library verified with
Verus (`src/`):

- `inferenceapi`, `image_ui`, `path`: request routing, model hints,
  input validation;
- `imagenet`, `mlpreprocessing`, `rpc`, `cbor`: the CBOR encodings of the
  interface messages, with encode/decode round trips proved;
- `tflite`, `inference`: the engine's bookkeeping of models, sessions and
  outputs;
- `bindle_loader`, `model_loader`, `lib.rs`: model metadata and the choice
  of what is fetched.

`app/` holds the actors, the message framing of the bus, the engine's
interpreter calls and the downloads, on top of the library.

Which graph encodings the model loader fetches is an assumption of the
library: it fetches ONNX models only (`model_loader::model_encoding_enabled`),
the same encoding that model metadata is accepted with.
