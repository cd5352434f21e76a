# A verified front end for a small Lua-flavoured language

The library lexes a source text, parses it by recursive descent, and turns the
parsed program into C. Every function is verified with Verus against a
functional specification, except one trusted wrapper: `push_char` in
`src/syntax/lexer.rs`, which calls `String::push` and is believed to append
the character.

- `src/syntax/lexer.rs`: tokens, and `lex`, the specification of the lexer.
- `src/syntax/parse/grammar.rs`: the grammar as functions on token sequences;
  each parser method is proved to return what its grammar function gives and
  to leave the parser where that function says.
- `src/syntax/parse/mod.rs`, `expr.rs`, `import_stmt.rs`: the parser.
- `src/syntax/parse/properties.rs`: properties of the grammar (operator
  precedence and grouping, blocks closed by `end`, types parsed exactly as
  spelled, which parser a statement goes to).
- `src/syntax/parse/suffix.rs`: a parse reads only the tokens from where it
  starts; dropping a top-level comment leaves the program unchanged unless
  the next token is `else` or a binary operator.
- `src/codegen/`: the C code generator and its specification.
- `app/`: reading files from disk.

Syntax sketch:

```
struct Point = { x: int, y: int }
function add(a: int, b: int): int
  return a
end
local p: Point = origin
for i = 1, 10 do
  total = total + i
end
if total < 3 then x = 1 end else x = 2 end
struct Empty = { }
```
