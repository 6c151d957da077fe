# zkrelay

The verified core of a zero-knowledge trading relay on BLS12-381: rank-1
constraint systems and the relay's three circuits, Groth16 key and proof
encodings, field conversions, and the storage logic of the randomness and
proof pallets. Everything under `src/` is checked by Verus; `app/` holds the
runtime glue (the random number generator that asks the runtime for seeds,
the calls that hand circuits to a Groth16 prover, and error display).

- `bytes`, `field`, `curve`: byte-string numbers, the scalar field and the
  curve points, each backed by the `bls12_381` crate.
- `constraint`, `recorder`: linear combinations, the constraint-system
  interface, and a system that records and checks assignments.
- `proof_circuit`: the pre-trade, transaction and store circuits, with the
  statements they are satisfied by.
- `groth16`, `multipack`, `g1_to_scalar`: encodings and conversions.
- `store_type`, `musig`, `randrng`, `zkproof`: what the pallets store and
  how their calls change it.
