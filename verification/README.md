# skillbot

A menu-driven Discord bot whose decisions are proved with Verus.

- `src/` is the verified library: routing of component ids (`route`),
  cache paths (`cache`), log-line shortening (`log`), screens and the
  responses they render into (`screen`), interaction inputs (`input`,
  `keyed`), the record collection behind form workflows (`collection`),
  the skill registry and dispatch (`skills`), the schedule skill
  (`schedule`) and the event handler's decisions (`bot`).
- `app/` is the program around it: settings, the gateway client, logging
  to a channel, files on disk, and conversion between the library's plain
  values and the Discord types.
- `tests/` exercises the library on concrete values.
