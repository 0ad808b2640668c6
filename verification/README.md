# revm (verified core)

Verus-verified pieces of an EVM interpreter:

- `u256`: 256-bit words as four 64-bit limbs, with comparisons, bitwise
  operations, wrapping addition, subtraction, negation and multiplication
  by a limb, shifts and byte extraction, each proved against arithmetic on
  the word's value.
- `i256`: the two's complement reading of words (sign, negation, signed
  comparison, arithmetic shift).
- `gas`, `interpreter`, `primitives`: the gas of a frame, the operand
  stack and status of an instruction, hardforks and the transaction
  environment.
- `bitwise`: the LT, GT, SLT, SGT, EQ, ISZERO, AND, OR, XOR, NOT, BYTE,
  SHL, SHR and SAR instructions, each with its effect on stack, gas and
  status.
- `optimism`: the gas a transaction ends with when its call returns under
  the Bedrock and Regolith rules, its refund, and where its fees go.
- `inspector`: how the inspector wraps the instruction table.
